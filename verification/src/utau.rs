//! UTAU text encodings: note names and pitch-bend strings.
use vstd::prelude::*;

use crate::text::{parse_i32, parse_i32_chars, parse_usize, parse_usize_range, str_chars, trim_chars, trimmed};

verus! {

/// Value of one character of UTAU's base-64 pitch-bend alphabet, or -1.
pub open spec fn utau_char_value(c: char) -> int {
    if 'A' <= c && c <= 'Z' {
        c as int - 'A' as int
    } else if 'a' <= c && c <= 'z' {
        c as int - 'a' as int + 26
    } else if '0' <= c && c <= '9' {
        c as int - '0' as int + 52
    } else if c == '+' {
        62
    } else if c == '/' {
        63
    } else {
        -1
    }
}

/// Decodes one character of the UTAU pitch-bend alphabet (`A-Z a-z 0-9 + /`).
/// Characters outside the alphabet give -1.
pub fn decode_utau_char(c: char) -> (r: i32)
    ensures
        r == utau_char_value(c),
        -1 <= r < 64,
{
    if 'A' <= c && c <= 'Z' {
        (c as u32 - 'A' as u32) as i32
    } else if 'a' <= c && c <= 'z' {
        (c as u32 - 'a' as u32 + 26) as i32
    } else if '0' <= c && c <= '9' {
        (c as u32 - '0' as u32 + 52) as i32
    } else if c == '+' {
        62
    } else if c == '/' {
        63
    } else {
        -1
    }
}

/// `c` in ASCII upper case, as `char::to_ascii_uppercase` gives it.
pub open spec fn ascii_upper(c: char) -> char {
    if 'a' <= c && c <= 'z' {
        ((c as u32) - 32) as char
    } else {
        c
    }
}

/// Semitone of a note letter `A`–`G` above C; `None` for any other character.
pub open spec fn base_step(c: char) -> Option<int> {
    if c == 'C' {
        Some(0)
    } else if c == 'D' {
        Some(2)
    } else if c == 'E' {
        Some(4)
    } else if c == 'F' {
        Some(5)
    } else if c == 'G' {
        Some(7)
    } else if c == 'A' {
        Some(9)
    } else if c == 'B' {
        Some(11)
    } else {
        None
    }
}

/// The characters of `s` that can belong to an octave number: digits and `-`.
pub open spec fn octave_chars(s: Seq<char>) -> Seq<char>
    decreases s.len(),
{
    if s.len() == 0 {
        Seq::empty()
    } else {
        let c = s.last();
        if ('0' <= c && c <= '9') || c == '-' {
            octave_chars(s.drop_last()).push(c)
        } else {
            octave_chars(s.drop_last())
        }
    }
}

/// The MIDI note number that a note name such as `C4`, `A#3` or `Bb4` stands
/// for. After trimming white space, the first character is the note letter
/// `A`–`G` (any case), a `#` anywhere after it raises the note by a semitone,
/// a `b` lowers it, and the digits and `-` signs after it, read as an `i32`,
/// give the octave (4 when there are none). A name that does not parse (empty,
/// another first letter, or octave text that is not an `i32`) is middle C
/// (60). The result wraps into `i32` as in a release build.
pub open spec fn note_midi(note: Seq<char>) -> i32 {
    let t = trimmed(note);
    if t.len() == 0 {
        60
    } else {
        let rest = t.drop_first();
        let octave_text = octave_chars(rest);
        let octave: Option<int> = if octave_text.len() == 0 {
            Some(4)
        } else {
            match parse_i32(octave_text) {
                Some(o) => Some(o as int),
                None => None,
            }
        };
        match (base_step(ascii_upper(t[0])), octave) {
            (Some(step), Some(octave)) => {
                let semitone = step + (if rest.contains('#') {
                    1int
                } else {
                    0int
                }) - (if rest.contains('b') {
                    1int
                } else {
                    0int
                });
                ((octave + 1) * 12 + semitone) as i32
            },
            _ => 60,
        }
    }
}

/// The octave that the text after a note letter gives, when it gives one.
pub open spec fn octave_of(rest: Seq<char>) -> Option<int> {
    if octave_chars(rest).len() == 0 {
        Some(4)
    } else {
        match parse_i32(octave_chars(rest)) {
            Some(o) => Some(o as int),
            None => None,
        }
    }
}

/// The natural note letters of an octave in ascending order.
pub open spec fn natural_letters() -> Seq<char> {
    seq!['C', 'D', 'E', 'F', 'G', 'A', 'B']
}

/// The major scale's steps in semitones: whole, whole, half, whole, whole,
/// whole (and a half step from B up to the next C).
pub open spec fn scale_step(i: int) -> int {
    if i == 2 {
        1
    } else {
        2
    }
}

/// The note number of a name whose trimmed text is the letter `l` followed
/// by `rest`, when the letter is a note letter and `rest` gives an octave.
proof fn lemma_note_midi_of(n: Seq<char>, l: char, rest: Seq<char>, step: int, o: int)
    requires
        trimmed(n) == seq![l] + rest,
        base_step(ascii_upper(l)) == Some(step),
        octave_of(rest) == Some(o),
        -1000 <= o <= 1000,
        0 <= step <= 11,
    ensures
        note_midi(n) == (o + 1) * 12 + step + (if rest.contains('#') {
            1int
        } else {
            0int
        }) - (if rest.contains('b') {
            1int
        } else {
            0int
        }),
{
    let t = trimmed(n);
    assert(t.len() > 0);
    assert(t[0] == l);
    assert(t.drop_first() =~= rest);
}

proof fn lemma_push_contains(rest: Seq<char>, c: char, d: char)
    ensures
        rest.push(c).contains(d) == (rest.contains(d) || c == d),
        octave_chars(rest.push(c)) == if ('0' <= c && c <= '9') || c == '-' {
            octave_chars(rest).push(c)
        } else {
            octave_chars(rest)
        },
{
    vstd::seq_lib::lemma_seq_contains_after_push(rest, c, d);
    assert(rest.push(c).drop_last() =~= rest);
}

/// Note names follow the piano keyboard. Within an octave the natural notes
/// C D E F G A B climb by whole steps except for the half steps E-F and
/// B-C; the same letter one octave up is 12 higher; `#` raises a note by one
/// and `b` lowers it by one; and `C4` is middle C, 60.
pub proof fn law_note_names_follow_the_keyboard(
    n1: Seq<char>,
    n2: Seq<char>,
    rest: Seq<char>,
    rest2: Seq<char>,
    i: int,
)
    requires
        0 <= i < 6,
        octave_of(rest) matches Some(o) && -1000 <= o <= 999,
        !rest.contains('#'),
        !rest.contains('b'),
    ensures
        trimmed(n1) == seq![natural_letters()[i]] + rest && trimmed(n2) == seq![
            natural_letters()[i + 1],
        ] + rest ==> note_midi(n2) - note_midi(n1) == scale_step(i),
        trimmed(n1) == seq!['B'] + rest && trimmed(n2) == seq!['C'] + rest2 && octave_of(rest2)
            == Some(octave_of(rest)->0 + 1) && !rest2.contains('#') && !rest2.contains('b')
            ==> note_midi(n2) - note_midi(n1) == 1,
        trimmed(n1) == seq![natural_letters()[i]] + rest && trimmed(n2) == seq![
            natural_letters()[i],
        ] + rest2 && octave_of(rest2) == Some(octave_of(rest)->0 + 1) && !rest2.contains('#')
            && !rest2.contains('b') ==> note_midi(n2) - note_midi(n1) == 12,
        trimmed(n1) == seq![natural_letters()[i]] + rest && trimmed(n2) == seq![
            natural_letters()[i],
        ] + rest.push('#') ==> note_midi(n2) - note_midi(n1) == 1,
        trimmed(n1) == seq![natural_letters()[i]] + rest && trimmed(n2) == seq![
            natural_letters()[i],
        ] + rest.push('b') ==> note_midi(n2) - note_midi(n1) == -1,
        trimmed(n1) == seq!['C', '4'] ==> note_midi(n1) == 60,
{
    let o = octave_of(rest)->0;
    let l = natural_letters();
    assert(l[0] == 'C' && l[1] == 'D' && l[2] == 'E' && l[3] == 'F' && l[4] == 'G' && l[5] == 'A'
        && l[6] == 'B');
    let step_i = base_step(l[i])->0;
    let step_j = base_step(l[i + 1])->0;
    assert(ascii_upper(l[i]) == l[i] && ascii_upper(l[i + 1]) == l[i + 1]);
    assert(step_j - step_i == scale_step(i));
    if trimmed(n1) == seq![l[i]] + rest && trimmed(n2) == seq![l[i + 1]] + rest {
        lemma_note_midi_of(n1, l[i], rest, step_i, o);
        lemma_note_midi_of(n2, l[i + 1], rest, step_j, o);
    }
    if trimmed(n1) == seq!['B'] + rest && trimmed(n2) == seq!['C'] + rest2 && octave_of(rest2)
        == Some(o + 1) && !rest2.contains('#') && !rest2.contains('b') {
        lemma_note_midi_of(n1, 'B', rest, 11, o);
        lemma_note_midi_of(n2, 'C', rest2, 0, o + 1);
    }
    if trimmed(n1) == seq![l[i]] + rest && trimmed(n2) == seq![l[i]] + rest2 && octave_of(rest2)
        == Some(o + 1) && !rest2.contains('#') && !rest2.contains('b') {
        lemma_note_midi_of(n1, l[i], rest, step_i, o);
        lemma_note_midi_of(n2, l[i], rest2, step_i, o + 1);
    }
    lemma_push_contains(rest, '#', '#');
    lemma_push_contains(rest, '#', 'b');
    lemma_push_contains(rest, 'b', '#');
    lemma_push_contains(rest, 'b', 'b');
    assert(octave_of(rest.push('#')) == octave_of(rest));
    assert(octave_of(rest.push('b')) == octave_of(rest));
    if trimmed(n1) == seq![l[i]] + rest && trimmed(n2) == seq![l[i]] + rest.push('#') {
        lemma_note_midi_of(n1, l[i], rest, step_i, o);
        lemma_note_midi_of(n2, l[i], rest.push('#'), step_i, o);
    }
    if trimmed(n1) == seq![l[i]] + rest && trimmed(n2) == seq![l[i]] + rest.push('b') {
        lemma_note_midi_of(n1, l[i], rest, step_i, o);
        lemma_note_midi_of(n2, l[i], rest.push('b'), step_i, o);
    }
    if trimmed(n1) == seq!['C', '4'] {
        let four = seq!['4'];
        assert(seq!['C', '4'] =~= seq!['C'] + four);
        let e = Seq::<char>::empty();
        assert(four.drop_last() =~= e);
        assert(octave_chars(e) =~= e);
        assert(octave_chars(four) =~= four);
        assert(crate::text::digits_value(e) == 0);
        assert(crate::text::digit_value('4') == 4);
        assert(crate::text::digits_value(four) == 4);
        assert(crate::text::all_digits(four));
        assert(parse_i32(four) == Some(4i32));
        assert(octave_of(four) == Some(4int));
        lemma_push_contains(e, '4', '#');
        lemma_push_contains(e, '4', 'b');
        assert(e.push('4') =~= four);
        lemma_note_midi_of(n1, 'C', four, 0, 4);
    }
}

/// Converts a note name (`C4` is 60, `A#3` is 58) to its MIDI note number;
/// a name that does not parse gives 60.
pub fn note_to_midi(note: &str) -> (r: i32)
    ensures
        r == note_midi(note@),
{
    let all = str_chars(note);
    let t = trim_chars(&all);
    if t.len() == 0 {
        return 60;
    }
    let first = t[0];
    let step_char = if 'a' <= first && first <= 'z' {
        ((first as u32) - 32) as u8 as char
    } else {
        first
    };
    let ghost rest = t@.drop_first();
    let mut is_sharp = false;
    let mut is_flat = false;
    let mut octave_str: Vec<char> = Vec::new();
    let mut i: usize = 1;
    while i < t.len()
        invariant
            1 <= i <= t@.len(),
            rest == t@.drop_first(),
            octave_str@ == octave_chars(rest.take(i - 1)),
            is_sharp == rest.take(i - 1).contains('#'),
            is_flat == rest.take(i - 1).contains('b'),
        decreases t.len() - i,
    {
        let c = t[i];
        proof {
            let p = rest.take(i - 1);
            let q = rest.take(i as int);
            assert(q =~= p.push(c));
            assert(q.drop_last() =~= p);
            vstd::seq_lib::lemma_seq_contains_after_push(p, c, '#');
            vstd::seq_lib::lemma_seq_contains_after_push(p, c, 'b');
        }
        if c == '#' {
            is_sharp = true;
        } else if c == 'b' {
            is_flat = true;
        } else if ('0' <= c && c <= '9') || c == '-' {
            octave_str.push(c);
        }
        i = i + 1;
    }
    assert(rest.take(t@.len() - 1) =~= rest);
    let octave: i64 = if octave_str.len() == 0 {
        4
    } else {
        match parse_i32_chars(&octave_str) {
            Some(o) => o as i64,
            None => {
                return 60;
            },
        }
    };
    let base: i64 = if step_char == 'C' {
        0
    } else if step_char == 'D' {
        2
    } else if step_char == 'E' {
        4
    } else if step_char == 'F' {
        5
    } else if step_char == 'G' {
        7
    } else if step_char == 'A' {
        9
    } else if step_char == 'B' {
        11
    } else {
        return 60;
    };
    let mut semitone = base;
    if is_sharp {
        semitone = semitone + 1;
    }
    if is_flat {
        semitone = semitone - 1;
    }
    ((octave + 1) * 12 + semitone) as i32
}

/// The pitch-bend value that the character pair `c1 c2` encodes: a 12-bit
/// two's-complement number, or `None` when either is outside the alphabet.
pub open spec fn pair_value(c1: char, c2: char) -> Option<i16> {
    let v1 = utau_char_value(c1);
    let v2 = utau_char_value(c2);
    if v1 >= 0 && v2 >= 0 {
        let raw = v1 * 64 + v2;
        Some((if raw >= 2048 {
            raw - 4096
        } else {
            raw
        }) as i16)
    } else {
        None
    }
}

/// Index of the first `#` in `s` at or after `k`, or `s.len()`.
pub open spec fn next_hash(s: Seq<char>, k: int) -> int
    decreases s.len() - k,
{
    if k >= s.len() {
        s.len() as int
    } else if s[k] == '#' {
        k
    } else {
        next_hash(s, k + 1)
    }
}

/// `acc` followed by `n` copies of its last value (unchanged when it is empty).
pub open spec fn repeat_last(acc: Seq<i16>, n: nat) -> Seq<i16> {
    if acc.len() == 0 {
        acc
    } else {
        acc + Seq::new(n, |k: int| acc.last())
    }
}

/// Decoding of the pitch-bend string `s` from position `i` on, after `acc`
/// has been decoded. Pairs of alphabet characters give one value each (a
/// pair with a character outside the alphabet gives none); `#n#` repeats the
/// last value so that it occurs `n` times in a row in all.
pub open spec fn decode_pitchbend_from(s: Seq<char>, i: int, acc: Seq<i16>) -> Seq<i16>
    decreases s.len() - i, 1int,
{
    if i < 0 || i >= s.len() {
        acc
    } else if s[i] == '#' && i + 1 < s.len() && next_hash(s, i + 1) < s.len() {
        let j = next_hash(s, i + 1);
        proof {
            lemma_next_hash_bounds(s, i + 1);
        }
        let acc2 = match parse_usize(s.subrange(i + 1, j)) {
            Some(count) => repeat_last(acc, if count >= 1 {
                (count - 1) as nat
            } else {
                0
            }),
            None => acc,
        };
        decode_pitchbend_from(s, j + 1, acc2)
    } else if i + 1 < s.len() {
        let acc2 = match pair_value(s[i], s[i + 1]) {
            Some(v) => acc.push(v),
            None => acc,
        };
        decode_pitchbend_from(s, i + 2, acc2)
    } else {
        decode_pitchbend_from(s, i + 1, acc)
    }
}

pub proof fn lemma_next_hash_bounds(s: Seq<char>, k: int)
    requires
        0 <= k <= s.len(),
    ensures
        k <= next_hash(s, k) <= s.len(),
        next_hash(s, k) < s.len() ==> s[next_hash(s, k)] == '#',
        forall|m: int| k <= m < next_hash(s, k) ==> s[m] != '#',
    decreases s.len() - k,
{
    if k < s.len() && s[k] != '#' {
        lemma_next_hash_bounds(s, k + 1);
    }
}

/// Every value of a 12-bit two's-complement pitch bend lies in `-2048..=2047`.
pub open spec fn in_bend_range(values: Seq<i16>) -> bool {
    forall|k: int| 0 <= k < values.len() ==> -2048 <= #[trigger] values[k] <= 2047
}

proof fn lemma_decoded_in_range(s: Seq<char>, i: int, acc: Seq<i16>)
    requires
        in_bend_range(acc),
    ensures
        in_bend_range(decode_pitchbend_from(s, i, acc)),
    decreases s.len() - i,
{
    if i < 0 || i >= s.len() {
    } else if s[i] == '#' && i + 1 < s.len() && next_hash(s, i + 1) < s.len() {
        let j = next_hash(s, i + 1);
        lemma_next_hash_bounds(s, i + 1);
        let acc2 = match parse_usize(s.subrange(i + 1, j)) {
            Some(count) => repeat_last(acc, if count >= 1 {
                (count - 1) as nat
            } else {
                0
            }),
            None => acc,
        };
        assert(in_bend_range(acc2)) by {
            if acc.len() > 0 {
                assert forall|k: int| 0 <= k < acc2.len() implies -2048 <= #[trigger] acc2[k] <= 2047 by {
                    if k >= acc.len() {
                        assert(acc2[k] == acc[acc.len() - 1]);
                    } else {
                        assert(acc2[k] == acc[k]);
                    }
                }
            }
        }
        lemma_decoded_in_range(s, j + 1, acc2);
    } else if i + 1 < s.len() {
        let acc2 = match pair_value(s[i], s[i + 1]) {
            Some(v) => acc.push(v),
            None => acc,
        };
        assert(in_bend_range(acc2)) by {
            assert forall|k: int| 0 <= k < acc2.len() implies -2048 <= #[trigger] acc2[k] <= 2047 by {
                if k < acc.len() {
                    assert(acc2[k] == acc[k]);
                }
            }
        }
        lemma_decoded_in_range(s, i + 2, acc2);
    } else {
        lemma_decoded_in_range(s, i + 1, acc);
    }
}

/// Decodes the pitch-bend string of a UTAU note into its values in cents.
pub fn decode_pitchbend(pitchbend_data: &str) -> (r: Vec<i16>)
    ensures
        r@ == decode_pitchbend_from(pitchbend_data@, 0, Seq::empty()),
        in_bend_range(r@),
{
    proof {
        lemma_decoded_in_range(pitchbend_data@, 0, Seq::empty());
    }
    let chars = str_chars(pitchbend_data);
    let n = chars.len();
    let mut result: Vec<i16> = Vec::new();
    let mut i: usize = 0;
    while i < n
        invariant
            n == chars@.len(),
            chars@ == pitchbend_data@,
            i <= n + 1,
            decode_pitchbend_from(chars@, i as int, result@) == decode_pitchbend_from(
                chars@,
                0,
                Seq::empty(),
            ),
        decreases n - i,
    {
        if chars[i] == '#' && i + 1 < n {
            let mut j = i + 1;
            while j < n && chars[j] != '#'
                invariant
                    i + 1 <= j <= n,
                    n == chars@.len(),
                    next_hash(chars@, i + 1) == next_hash(chars@, j as int),
                decreases n - j,
            {
                j = j + 1;
            }
            proof {
                lemma_next_hash_bounds(chars@, j as int);
            }
            if j < n && chars[j] == '#' {
                assert(next_hash(chars@, j as int) == j);
                let ghost before = result@;
                match parse_usize_range(&chars, i + 1, j) {
                    Some(count) => {
                        if result.len() > 0 {
                            let last = result[result.len() - 1];
                            let mut k: usize = 1;
                            while k < count
                                invariant
                                    before.len() > 0,
                                    last == before.last(),
                                    1 <= k <= count || count == 0,
                                    k <= count ==> result@ == before + Seq::new(
                                        (k - 1) as nat,
                                        |m: int| before.last(),
                                    ),
                                    count == 0 ==> result@ == before,
                                decreases count - k,
                            {
                                result.push(last);
                                k = k + 1;
                                proof {
                                    assert(result@ =~= before + Seq::new(
                                        (k - 1) as nat,
                                        |m: int| before.last(),
                                    ));
                                }
                            }
                            proof {
                                if count >= 1 {
                                    assert(result@ == repeat_last(before, (count - 1) as nat));
                                } else {
                                    assert(Seq::new(0nat, |m: int| before.last()) =~= Seq::<
                                        i16,
                                    >::empty());
                                    assert(before + Seq::<i16>::empty() =~= before);
                                }
                            }
                        }
                    },
                    None => {},
                }
                i = j + 1;
                continue ;
            }
        }
        if i + 1 < n {
            let v1 = decode_utau_char(chars[i]);
            let v2 = decode_utau_char(chars[i + 1]);
            if v1 >= 0 && v2 >= 0 {
                let raw = v1 * 64 + v2;
                let value = if raw >= 2048 {
                    raw - 4096
                } else {
                    raw
                } as i16;
                result.push(value);
            }
            i = i + 2;
        } else {
            i = i + 1;
        }
    }
    result
}

/// State of the xorshift generator that dithers the wavtool's output.
pub struct XorShift32(pub u32);

/// One step of the 32-bit xorshift generator (shifts 13, 17, 5).
pub open spec fn xorshift32_step(x: u32) -> u32 {
    let a = x ^ (x << 13u32);
    let b = a ^ (a >> 17u32);
    b ^ (b << 5u32)
}

/// The xorshift step maps zero to zero and every non-zero state to a
/// non-zero state, so a generator seeded with a non-zero value never gets
/// stuck at zero, and one seeded with zero stays there.
pub proof fn law_xorshift32_zero_only_from_zero(x: u32)
    ensures
        (xorshift32_step(x) == 0) == (x == 0),
{
    let a = x ^ (x << 13u32);
    let b = a ^ (a >> 17u32);
    let c = b ^ (b << 5u32);
    assert((a == 0) == (x == 0)) by (bit_vector)
        requires
            a == x ^ (x << 13u32),
    ;
    assert((b == 0) == (a == 0)) by (bit_vector)
        requires
            b == a ^ (a >> 17u32),
    ;
    assert((c == 0) == (b == 0)) by (bit_vector)
        requires
            c == b ^ (b << 5u32),
    ;
}

impl XorShift32 {
    /// A generator whose state is `seed`.
    pub fn new(seed: u32) -> (r: Self)
        ensures
            r.0 == seed,
    {
        XorShift32(seed)
    }

    /// Advances the generator by one step and returns the new state.
    pub fn next_u32(&mut self) -> (r: u32)
        ensures
            final(self).0 == xorshift32_step(old(self).0),
            r == final(self).0,
    {
        let x = self.0;
        let a = x ^ (x << 13u32);
        let b = a ^ (a >> 17u32);
        let c = b ^ (b << 5u32);
        self.0 = c;
        c
    }
}

} // verus!
