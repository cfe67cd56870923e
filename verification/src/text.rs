//! Character-level helpers shared by the text parsers: whitespace, trimming
//! and the decimal integer syntax accepted by `str::parse`.
use vstd::prelude::*;

verus! {

/// The characters of `s`, in order.
pub fn str_chars(s: &str) -> (r: Vec<char>)
    ensures
        r@ == s@,
{
    broadcast use vstd::string::group_string_axioms;

    let mut out: Vec<char> = Vec::new();
    for c in it: s.chars()
        invariant
            out@ == it.seq().take(it.index() as int),
    {
        out.push(c);
    }
    out
}

/// Unicode's `White_Space` property, which `char::is_whitespace` and
/// `str::trim` go by.
pub open spec fn is_white_space(c: char) -> bool {
    let u = c as u32;
    (0x9 <= u && u <= 0xd) || u == 0x20 || u == 0x85 || u == 0xa0 || u == 0x1680 || (0x2000 <= u
        && u <= 0x200a) || u == 0x2028 || u == 0x2029 || u == 0x202f || u == 0x205f || u == 0x3000
}

/// Whether `c` has Unicode's `White_Space` property.
pub fn is_white_space_char(c: char) -> (r: bool)
    ensures
        r == is_white_space(c),
{
    let u = c as u32;
    (0x9 <= u && u <= 0xd) || u == 0x20 || u == 0x85 || u == 0xa0 || u == 0x1680 || (0x2000 <= u
        && u <= 0x200a) || u == 0x2028 || u == 0x2029 || u == 0x202f || u == 0x205f || u == 0x3000
}

/// Index of the first character of `s` at or after `k` that is not white space, or `s.len()`.
pub open spec fn first_non_space(s: Seq<char>, k: int) -> int
    decreases s.len() - k,
{
    if k >= s.len() {
        s.len() as int
    } else if is_white_space(s[k]) {
        first_non_space(s, k + 1)
    } else {
        k
    }
}

/// One past the index of the last character of `s` before `k` that is not white space, or 0.
pub open spec fn end_non_space(s: Seq<char>, k: int) -> int
    decreases k,
{
    if k <= 0 {
        0
    } else if is_white_space(s[k - 1]) {
        end_non_space(s, k - 1)
    } else {
        k
    }
}

/// `s` without its leading and trailing white space, as `str::trim` gives it.
pub open spec fn trimmed(s: Seq<char>) -> Seq<char> {
    let start = first_non_space(s, 0);
    let end = end_non_space(s, s.len() as int);
    if start >= end {
        Seq::empty()
    } else {
        s.subrange(start, end)
    }
}

proof fn lemma_first_non_space_bounds(s: Seq<char>, k: int)
    requires
        0 <= k <= s.len(),
    ensures
        k <= first_non_space(s, k) <= s.len(),
        forall|i: int| k <= i < first_non_space(s, k) ==> is_white_space(#[trigger] s[i]),
        first_non_space(s, k) < s.len() ==> !is_white_space(s[first_non_space(s, k)]),
    decreases s.len() - k,
{
    if k < s.len() && is_white_space(s[k]) {
        lemma_first_non_space_bounds(s, k + 1);
    }
}

proof fn lemma_end_non_space_bounds(s: Seq<char>, k: int)
    requires
        0 <= k <= s.len(),
    ensures
        0 <= end_non_space(s, k) <= k,
        forall|i: int| end_non_space(s, k) <= i < k ==> is_white_space(#[trigger] s[i]),
        end_non_space(s, k) > 0 ==> !is_white_space(s[end_non_space(s, k) - 1]),
    decreases k,
{
    if k > 0 && is_white_space(s[k - 1]) {
        lemma_end_non_space_bounds(s, k - 1);
    }
}

/// `s` without leading and trailing white space.
pub fn trim_chars(s: &Vec<char>) -> (r: Vec<char>)
    ensures
        r@ == trimmed(s@),
{
    let n = s.len();
    let mut start: usize = 0;
    while start < n && is_white_space_char(s[start])
        invariant
            n == s@.len(),
            start <= n,
            first_non_space(s@, start as int) == first_non_space(s@, 0),
        decreases n - start,
    {
        start = start + 1;
    }
    let mut end: usize = n;
    while end > 0 && is_white_space_char(s[end - 1])
        invariant
            n == s@.len(),
            end <= n,
            end_non_space(s@, end as int) == end_non_space(s@, n as int),
        decreases end,
    {
        end = end - 1;
    }
    let mut out: Vec<char> = Vec::new();
    if start < end {
        let mut i = start;
        while i < end
            invariant
                start <= i <= end <= n,
                n == s@.len(),
                out@ == s@.subrange(start as int, i as int),
            decreases end - i,
        {
            out.push(s[i]);
            i = i + 1;
            proof {
                assert(out@ =~= s@.subrange(start as int, i as int));
            }
        }
    }
    assert(first_non_space(s@, start as int) == start as int);
    assert(end_non_space(s@, end as int) == end as int);
    if start >= end {
        assert(out@ =~= Seq::<char>::empty());
    }
    out
}

/// Whether `c` is an ASCII decimal digit.
pub open spec fn is_digit(c: char) -> bool {
    '0' <= c && c <= '9'
}

/// Value of the ASCII digit `c`.
pub open spec fn digit_value(c: char) -> int {
    c as int - '0' as int
}

/// Every character of `s` is an ASCII digit.
pub open spec fn all_digits(s: Seq<char>) -> bool {
    forall|i: int| 0 <= i < s.len() ==> is_digit(#[trigger] s[i])
}

/// The number the decimal digits `s` spell.
pub open spec fn digits_value(s: Seq<char>) -> nat
    decreases s.len(),
{
    if s.len() == 0 {
        0
    } else {
        (digits_value(s.drop_last()) * 10 + digit_value(s.last())) as nat
    }
}

/// What `str::parse::<i32>` gives for `s`: an optional `+` or `-`, then one
/// or more digits whose value fits in `i32`.
pub open spec fn parse_i32(s: Seq<char>) -> Option<i32> {
    if s.len() > 0 && (s[0] == '-' || s[0] == '+') {
        let d = s.drop_first();
        if d.len() == 0 || !all_digits(d) {
            None
        } else if s[0] == '-' {
            if digits_value(d) <= 2147483648 {
                Some((0 - digits_value(d)) as i32)
            } else {
                None
            }
        } else if digits_value(d) <= 2147483647 {
            Some(digits_value(d) as i32)
        } else {
            None
        }
    } else if s.len() == 0 || !all_digits(s) {
        None
    } else if digits_value(s) <= 2147483647 {
        Some(digits_value(s) as i32)
    } else {
        None
    }
}

/// What `str::parse::<usize>` gives for `s`: an optional `+`, then one or
/// more digits whose value fits in `usize`.
pub open spec fn parse_usize(s: Seq<char>) -> Option<usize> {
    let d = if s.len() > 0 && s[0] == '+' {
        s.drop_first()
    } else {
        s
    };
    if d.len() == 0 || !all_digits(d) || digits_value(d) > usize::MAX {
        None
    } else {
        Some(digits_value(d) as usize)
    }
}

/// Reads the digits `s[from..to]`: `None` when one of them is not a digit,
/// otherwise their value, or `u128::MAX` when that value exceeds `limit`.
fn read_digits(s: &Vec<char>, from: usize, to: usize, limit: u128) -> (r: Option<u128>)
    requires
        from <= to <= s@.len(),
        limit <= u64::MAX,
    ensures
        r is None <==> !all_digits(s@.subrange(from as int, to as int)),
        r matches Some(v) ==> if digits_value(s@.subrange(from as int, to as int)) <= limit {
            v == digits_value(s@.subrange(from as int, to as int))
        } else {
            v == u128::MAX
        },
{
    let mut acc: u128 = 0;
    let mut over = false;
    let mut i = from;
    while i < to
        invariant
            from <= i <= to <= s@.len(),
            limit <= u64::MAX,
            all_digits(s@.subrange(from as int, i as int)),
            !over ==> acc == digits_value(s@.subrange(from as int, i as int)) && acc <= limit,
            over ==> digits_value(s@.subrange(from as int, i as int)) > limit,
        decreases to - i,
    {
        let c = s[i];
        if !('0' <= c && c <= '9') {
            proof {
                assert(s@.subrange(from as int, to as int)[i - from] == c);
            }
            return None;
        }
        let ghost prev = s@.subrange(from as int, i as int);
        let ghost next = s@.subrange(from as int, i + 1);
        proof {
            assert(next.drop_last() =~= prev);
            assert(next.last() == c);
            assert forall|k: int| 0 <= k < next.len() implies is_digit(#[trigger] next[k]) by {
                if k < prev.len() {
                    assert(next[k] == prev[k]);
                }
            }
        }
        let d = (c as u32 - '0' as u32) as u128;
        if !over {
            acc = acc * 10 + d;
            if acc > limit {
                over = true;
            }
        }
        i = i + 1;
    }
    if over {
        Some(u128::MAX)
    } else {
        Some(acc)
    }
}

/// Parses `s` as `str::parse::<i32>` does.
pub fn parse_i32_chars(s: &Vec<char>) -> (r: Option<i32>)
    ensures
        r == parse_i32(s@),
{
    let n = s.len();
    if n > 0 && (s[0] == '-' || s[0] == '+') {
        assert(s@.drop_first() =~= s@.subrange(1, n as int));
        if n == 1 {
            return None;
        }
        let neg = s[0] == '-';
        match read_digits(s, 1, n, 2147483648) {
            None => None,
            Some(v) => {
                if neg {
                    if v <= 2147483648 {
                        Some((0 - (v as i64)) as i32)
                    } else {
                        None
                    }
                } else if v <= 2147483647 {
                    Some(v as i32)
                } else {
                    None
                }
            },
        }
    } else {
        assert(s@ =~= s@.subrange(0, n as int));
        if n == 0 {
            return None;
        }
        match read_digits(s, 0, n, 2147483648) {
            None => None,
            Some(v) => {
                if v <= 2147483647 {
                    Some(v as i32)
                } else {
                    None
                }
            },
        }
    }
}

/// Parses `s[from..to]` as `str::parse::<usize>` does.
pub fn parse_usize_range(s: &Vec<char>, from: usize, to: usize) -> (r: Option<usize>)
    requires
        from <= to <= s@.len(),
    ensures
        r == parse_usize(s@.subrange(from as int, to as int)),
{
    let ghost w = s@.subrange(from as int, to as int);
    let start = if from < to && s[from] == '+' {
        assert(w.drop_first() =~= s@.subrange(from + 1, to as int));
        from + 1
    } else {
        from
    };
    if start == to {
        return None;
    }
    match read_digits(s, start, to, usize::MAX as u128) {
        None => None,
        Some(v) => {
            if v <= usize::MAX as u128 {
                Some(v as usize)
            } else {
                None
            }
        },
    }
}

} // verus!
