//! Command-line options shared by the resampler and wavtool front ends.
use vstd::prelude::*;

use crate::text::str_chars;

verus! {

/// `c` in ASCII lower case.
pub open spec fn ascii_lower(c: char) -> char {
    if 'A' <= c && c <= 'Z' {
        ((c as u32) + 32) as char
    } else {
        c
    }
}

/// Whether `a` and `b` are equal when ASCII letters are compared without
/// regard to case (for an ASCII `b`, as `str::eq_ignore_ascii_case` decides).
pub open spec fn eq_ignore_ascii_case(a: Seq<char>, b: Seq<char>) -> bool {
    a.len() == b.len() && forall|i: int| 0 <= i < a.len() ==> ascii_lower(#[trigger] a[i]) == ascii_lower(b[i])
}

/// Where the leading logging options of `args` end, from position `i` on,
/// and the `verbose` and JSON settings they leave, starting from `verbose`
/// and `json`. `--verbose` turns on verbose logging; `--log-format F`
/// (when `F` follows) selects JSON logs exactly when `F` is `json` in any
/// case; the first other argument ends the options.
pub open spec fn log_options_from(args: Seq<Seq<char>>, i: int, verbose: bool, json: bool) -> (int, bool, bool)
    decreases args.len() - i,
{
    if i < 1 || i >= args.len() {
        (args.len() as int, verbose, json)
    } else if args[i] == "--verbose"@ {
        log_options_from(args, i + 1, true, json)
    } else if args[i] == "--log-format"@ && i + 1 < args.len() {
        log_options_from(args, i + 2, verbose, eq_ignore_ascii_case(args[i + 1], "json"@))
    } else {
        (i, verbose, json)
    }
}

/// Whether `a` starts a logging option at position `i` of `args`.
pub open spec fn starts_option(args: Seq<Seq<char>>, i: int) -> bool {
    args[i] == "--verbose"@ || (args[i] == "--log-format"@ && i + 1 < args.len())
}

proof fn lemma_option_words_differ()
    ensures
        "--verbose"@ != "--log-format"@,
{
    reveal_strlit("--verbose");
    reveal_strlit("--log-format");
    assert("--verbose"@.len() != "--log-format"@.len());
}

/// The options end at the first argument that does not start one (or at the
/// end); verbose logging is on exactly when it was already on or a
/// `--verbose` stands among the options read.
pub proof fn law_log_options_end_at_first_other(args: Seq<Seq<char>>, i: int, verbose: bool, json: bool)
    requires
        1 <= i <= args.len(),
    ensures
        ({
            let (cut, v, _j) = log_options_from(args, i, verbose, json);
            &&& i <= cut <= args.len()
            &&& (cut == args.len() || !starts_option(args, cut))
            &&& (verbose ==> v)
            &&& (v ==> verbose || exists|k: int| i <= k < cut && args[k] == "--verbose"@)
            &&& (i < args.len() && args[i] == "--verbose"@ ==> v)
        }),
    decreases args.len() - i,
{
    lemma_option_words_differ();
    if i < args.len() {
        if args[i] == "--verbose"@ {
            law_log_options_end_at_first_other(args, i + 1, true, json);
            let (cut, v, _j) = log_options_from(args, i + 1, true, json);
            assert(log_options_from(args, i, verbose, json) == log_options_from(args, i + 1, true, json));
            assert(i <= i && i < cut && args[i] == "--verbose"@);
        } else if args[i] == "--log-format"@ && i + 1 < args.len() {
            let j2 = eq_ignore_ascii_case(args[i + 1], "json"@);
            law_log_options_end_at_first_other(args, i + 2, verbose, j2);
            assert(log_options_from(args, i, verbose, json) == log_options_from(args, i + 2, verbose, j2));
            let (cut, v, _j) = log_options_from(args, i + 2, verbose, j2);
            if v && !verbose {
                let w = choose|k: int| i + 2 <= k < cut && args[k] == "--verbose"@;
                assert(i <= w < cut && args[w] == "--verbose"@);
            }
        }
    }
}

proof fn lemma_log_options_suffix(a: Seq<Seq<char>>, b: Seq<Seq<char>>, i: int, verbose: bool, json: bool)
    requires
        a.len() == b.len(),
        forall|k: int| i <= k < a.len() ==> a[k] == b[k],
    ensures
        log_options_from(a, i, verbose, json) == log_options_from(b, i, verbose, json),
    decreases a.len() - i,
{
    if 1 <= i < a.len() {
        lemma_log_options_suffix(a, b, i + 1, true, json);
        if i + 1 < a.len() {
            lemma_log_options_suffix(a, b, i + 2, verbose, eq_ignore_ascii_case(a[i + 1], "json"@));
        }
    }
}

/// The two logging options may come in either order: `--verbose` followed by
/// `--log-format F` reads exactly as `--log-format F` followed by `--verbose`.
pub proof fn law_log_options_commute(args: Seq<Seq<char>>, i: int, verbose: bool, json: bool)
    requires
        1 <= i,
        i + 2 < args.len(),
        args[i] == "--verbose"@,
        args[i + 1] == "--log-format"@,
    ensures
        log_options_from(args, i, verbose, json) == log_options_from(
            args.update(i, "--log-format"@).update(i + 1, args[i + 2]).update(i + 2, "--verbose"@),
            i,
            verbose,
            json,
        ),
{
    lemma_option_words_differ();
    let swapped = args.update(i, "--log-format"@).update(i + 1, args[i + 2]).update(
        i + 2,
        "--verbose"@,
    );
    let j2 = eq_ignore_ascii_case(args[i + 2], "json"@);
    assert(swapped[i] == "--log-format"@);
    assert(swapped[i + 1] == args[i + 2]);
    assert(swapped[i + 2] == "--verbose"@);
    assert(log_options_from(args, i, verbose, json) == log_options_from(args, i + 1, true, json));
    assert(log_options_from(args, i + 1, true, json) == log_options_from(args, i + 3, true, j2));
    assert(swapped.len() == args.len());
    assert(log_options_from(swapped, i, verbose, json) == log_options_from(swapped, i + 2, verbose, j2));
    assert(log_options_from(swapped, i + 2, verbose, j2) == log_options_from(swapped, i + 3, true, j2));
    lemma_log_options_suffix(args, swapped, i + 3, true, j2);
}

/// Whether the characters of `a` are `b`.
fn chars_equal(a: &Vec<char>, b: &Vec<char>) -> (r: bool)
    ensures
        r == (a@ == b@),
{
    if a.len() != b.len() {
        return false;
    }
    let mut i: usize = 0;
    while i < a.len()
        invariant
            a@.len() == b@.len(),
            i <= a@.len(),
            forall|k: int| 0 <= k < i ==> a@[k] == b@[k],
        decreases a.len() - i,
    {
        if a[i] != b[i] {
            return false;
        }
        i = i + 1;
    }
    assert(a@ =~= b@);
    true
}

fn lower(c: char) -> (r: char)
    ensures
        r == ascii_lower(c),
{
    if 'A' <= c && c <= 'Z' {
        ((c as u32) + 32) as u8 as char
    } else {
        c
    }
}

/// Whether `a` equals `b` up to the case of ASCII letters.
fn chars_eq_ignore_ascii_case(a: &Vec<char>, b: &Vec<char>) -> (r: bool)
    ensures
        r == eq_ignore_ascii_case(a@, b@),
{
    if a.len() != b.len() {
        return false;
    }
    let mut i: usize = 0;
    while i < a.len()
        invariant
            a@.len() == b@.len(),
            i <= a@.len(),
            forall|k: int| 0 <= k < i ==> ascii_lower(#[trigger] a@[k]) == ascii_lower(b@[k]),
        decreases a.len() - i,
    {
        if lower(a[i]) != lower(b[i]) {
            return false;
        }
        i = i + 1;
    }
    true
}

/// Splits the leading logging options (`--verbose`, `--log-format pretty|json`)
/// off a program's arguments. Returns the program name followed by the
/// remaining arguments, whether verbose logging was asked for, and whether
/// JSON logs were.
pub fn parse_runtime_log_options(raw_args: Vec<String>) -> (r: (Vec<String>, bool, bool))
    requires
        raw_args@.len() >= 1,
    ensures
        ({
            let args = raw_args@.map_values(|s: String| s@);
            let (cut, verbose, json) = log_options_from(args, 1, false, false);
            &&& r.0@.map_values(|s: String| s@) == seq![args[0]] + args.skip(cut)
            &&& r.1 == verbose
            &&& r.2 == json
        }),
{
    let ghost args = raw_args@.map_values(|s: String| s@);
    let verbose_lit = str_chars("--verbose");
    let log_format_lit = str_chars("--log-format");
    let json_lit = str_chars("json");
    let mut out: Vec<String> = Vec::new();
    out.push(raw_args[0].clone());
    let mut verbose = false;
    let mut json_logs = false;
    let n = raw_args.len();
    let mut i: usize = 1;
    let mut cut: usize = n;
    let mut done = false;
    assert(out@.map_values(|s: String| s@) =~= seq![args[0]]);
    while i < n && !done
        invariant
            1 <= i <= n,
            n == raw_args@.len(),
            args == raw_args@.map_values(|s: String| s@),
            verbose_lit@ == "--verbose"@,
            log_format_lit@ == "--log-format"@,
            json_lit@ == "json"@,
            cut <= n,
            !done ==> log_options_from(args, i as int, verbose, json_logs) == log_options_from(
                args,
                1,
                false,
                false,
            ),
            done ==> log_options_from(args, 1, false, false) == (cut as int, verbose, json_logs),
            out@.map_values(|s: String| s@) == seq![args[0]],
        decreases n - i, if done { 0int } else { 1int },
    {
        let a = str_chars(raw_args[i].as_str());
        assert(a@ == args[i as int]);
        if chars_equal(&a, &verbose_lit) {
            verbose = true;
            i = i + 1;
        } else if chars_equal(&a, &log_format_lit) && i + 1 < n {
            let f = str_chars(raw_args[i + 1].as_str());
            assert(f@ == args[i + 1]);
            json_logs = chars_eq_ignore_ascii_case(&f, &json_lit);
            i = i + 2;
        } else {
            cut = i;
            done = true;
        }
    }
    if !done {
        cut = n;
    }
    let mut k = cut;
    while k < n
        invariant
            cut <= k <= n,
            n == raw_args@.len(),
            args == raw_args@.map_values(|s: String| s@),
            out@.map_values(|s: String| s@) == seq![args[0]] + args.subrange(cut as int, k as int),
        decreases n - k,
    {
        let ghost before = out@;
        let item = raw_args[k].clone();
        assert(item@ == args[k as int]);
        out.push(item);
        k = k + 1;
        proof {
            assert(out@ == before.push(item));
            assert(out@.map_values(|s: String| s@) =~= before.map_values(|s: String| s@).push(
                item@,
            ));
            assert(args.subrange(cut as int, k as int) =~= args.subrange(cut as int, k - 1).push(
                args[k - 1],
            ));
            assert(out@.map_values(|s: String| s@) =~= seq![args[0]] + args.subrange(
                cut as int,
                k as int,
            ));
        }
    }
    assert(args.subrange(cut as int, n as int) =~= args.skip(cut as int));
    (out, verbose, json_logs)
}

} // verus!
