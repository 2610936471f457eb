//! Command-line parsing and the buffer-count arithmetic.
//!
//! The tool is invoked as `program [-v|--verbose] HEIGHT WIDTH MEGABYTES`.
//! The three numeric arguments are unsigned decimal numerals; the number of
//! buffers the pool can afford is `megabytes * 1024 * 1024` divided by the
//! size of one buffer, `width * height * 4` bytes, rounded down.

use vstd::prelude::*;
use vstd::string::*;

verus! {

/// A decimal digit `'0'..='9'`.
pub open spec fn is_dec_digit(c: char) -> bool {
    48 <= c as u32 && c as u32 <= 57
}

/// Numeric value of a decimal digit character.
pub open spec fn digit_val(c: char) -> int {
    c as u32 - 48
}

/// Every character of `s` is a decimal digit.
pub open spec fn all_dec_digits(s: Seq<char>) -> bool {
    forall|i: int| 0 <= i < s.len() ==> is_dec_digit(#[trigger] s[i])
}

/// Value of a sequence of decimal digits, most significant first.
pub open spec fn dec_val(s: Seq<char>) -> int
    decreases s.len(),
{
    if s.len() == 0 {
        0
    } else {
        dec_val(s.drop_last()) * 10 + digit_val(s.last())
    }
}

/// The digits of a numeral: everything after an optional leading `'+'`.
pub open spec fn numeral_body(s: Seq<char>) -> Seq<char> {
    if s.len() > 0 && s[0] == '+' {
        s.subrange(1, s.len() as int)
    } else {
        s
    }
}

/// `s` is a decimal numeral whose value fits in a `u32`: an optional leading
/// `'+'`, then at least one digit, with a value of at most `u32::MAX`.
pub open spec fn is_u32_numeral(s: Seq<char>) -> bool {
    let b = numeral_body(s);
    b.len() > 0 && all_dec_digits(b) && dec_val(b) <= u32::MAX
}

proof fn lemma_dec_val_nonneg(s: Seq<char>)
    requires
        all_dec_digits(s),
    ensures
        dec_val(s) >= 0,
    decreases s.len(),
{
    if s.len() > 0 {
        assert(all_dec_digits(s.drop_last()));
        lemma_dec_val_nonneg(s.drop_last());
    }
}

/// The value of a digit string bounds the value of each of its prefixes.
proof fn lemma_dec_val_prefix_le(s: Seq<char>, j: int)
    requires
        all_dec_digits(s),
        0 <= j <= s.len(),
    ensures
        dec_val(s.subrange(0, j)) <= dec_val(s),
    decreases s.len() - j,
{
    if j == s.len() {
        assert(s.subrange(0, j) =~= s);
    } else {
        assert(s.subrange(0, j + 1).drop_last() =~= s.subrange(0, j));
        assert(all_dec_digits(s.subrange(0, j)));
        lemma_dec_val_nonneg(s.subrange(0, j));
        assert(dec_val(s.subrange(0, j + 1)) == dec_val(s.subrange(0, j)) * 10 + digit_val(
            s.subrange(0, j + 1).last(),
        ));
        lemma_dec_val_prefix_le(s, j + 1);
    }
}

/// Parses an unsigned decimal numeral, exactly when `s` is one whose value
/// fits in a `u32`.
pub fn parse_u32(s: &str) -> (r: Option<u32>)
    ensures
        r is Some <==> is_u32_numeral(s@),
        r is Some ==> r->Some_0 == dec_val(numeral_body(s@)),
{
    let n = s.unicode_len();
    let start: usize = if n > 0 && s.get_char(0) == '+' {
        1
    } else {
        0
    };
    assert(numeral_body(s@) =~= s@.subrange(start as int, n as int));
    if start >= n {
        return None;
    }
    let mut i: usize = start;
    let mut val: u64 = 0;
    while i < n
        invariant
            start <= i <= n,
            n == s@.len(),
            numeral_body(s@) =~= s@.subrange(start as int, n as int),
            all_dec_digits(s@.subrange(start as int, i as int)),
            val == dec_val(s@.subrange(start as int, i as int)),
            val <= u32::MAX,
            start < n,
        decreases n - i,
    {
        let c = s.get_char(i);
        let u = c as u32;
        if u < 48 || u > 57 {
            assert(!all_dec_digits(numeral_body(s@))) by {
                assert(numeral_body(s@)[i - start] == c);
            }
            return None;
        }
        val = val * 10 + ((u - 48) as u64);
        proof {
            assert(s@.subrange(start as int, i + 1).drop_last() =~= s@.subrange(
                start as int,
                i as int,
            ));
            assert(s@.subrange(start as int, i + 1).last() == c);
        }
        if val > 0xFFFF_FFFF {
            proof {
                let b = numeral_body(s@);
                if all_dec_digits(b) {
                    assert(b.subrange(0, i + 1 - start) =~= s@.subrange(start as int, i + 1));
                    lemma_dec_val_prefix_le(b, i + 1 - start);
                }
            }
            return None;
        }
        i = i + 1;
    }
    assert(s@.subrange(start as int, n as int) =~= numeral_body(s@));
    Some(val as u32)
}

/// `s` is the verbosity flag, in either spelling.
pub open spec fn is_verbose_flag(s: Seq<char>) -> bool {
    s == "-v"@ || s == "--verbose"@
}

fn is_verbose_arg(s: &String) -> (r: bool)
    ensures
        r == is_verbose_flag(s@),
{
    let short = String::from_str("-v");
    let long = String::from_str("--verbose");
    *s == short || *s == long
}

/// The parsed command line: the verbosity flag and the three numeric
/// arguments, in the order the usage line gives them.
pub struct CmdArgs {
    pub verbose: bool,
    pub height: u32,
    pub width: u32,
    pub megabytes: u32,
}

/// Index of the first numeric argument.
pub open spec fn arg_offset(verbose: bool) -> int {
    if verbose {
        1
    } else {
        0
    }
}

/// Reads the argument list (program name first). The count must be four or
/// five; the verbosity flag is recognized in second position; the three
/// numerals after it (a fifth argument beyond them is ignored) must each fit
/// in a `u32`. Anything else is `None`, on which the caller prints the usage
/// line and exits.
///
/// A count of four with the verbosity flag set leaves no room for the third
/// numeral and is rejected like any other malformed line.
pub fn parse_args(args: &Vec<String>) -> (r: Option<CmdArgs>)
    ensures
        args@.len() != 4 && args@.len() != 5 ==> r is None,
        args@.len() == 4 && is_verbose_flag(args@[1]@) ==> r is None,
        (args@.len() == 4 || args@.len() == 5) && !(args@.len() == 4 && is_verbose_flag(
            args@[1]@,
        )) ==> {
            let off = arg_offset(is_verbose_flag(args@[1]@));
            &&& (r is Some <==> is_u32_numeral(args@[1 + off]@) && is_u32_numeral(args@[2 + off]@)
                && is_u32_numeral(args@[3 + off]@))
            &&& (r matches Some(c) ==> {
                &&& c.verbose == is_verbose_flag(args@[1]@)
                &&& c.height == dec_val(numeral_body(args@[1 + off]@))
                &&& c.width == dec_val(numeral_body(args@[2 + off]@))
                &&& c.megabytes == dec_val(numeral_body(args@[3 + off]@))
            })
        },
{
    let len = args.len();
    if len != 4 && len != 5 {
        return None;
    }
    let verbose = is_verbose_arg(&args[1]);
    if verbose && len == 4 {
        return None;
    }
    let off: usize = if verbose {
        1
    } else {
        0
    };
    let height = parse_u32(args[1 + off].as_str());
    let width = parse_u32(args[2 + off].as_str());
    let megabytes = parse_u32(args[3 + off].as_str());
    match (height, width, megabytes) {
        (Some(height), Some(width), Some(megabytes)) => Some(
            CmdArgs { verbose, height, width, megabytes },
        ),
        _ => None,
    }
}

/// Builds the usage line printed to the error stream before the tool exits
/// with status 1 on a malformed command line.
pub fn usage_message(prog: &str) -> (r: String)
    ensures
        r@ == "Usage: "@ + prog@ + " [-v] HEIGHT WIDTH MEGABYTES\n"@,
{
    let mut s = String::from_str("Usage: ");
    s.append(prog);
    s.append(" [-v] HEIGHT WIDTH MEGABYTES\n");
    s
}

/// How many whole buffers of `width * height * 4` bytes fit in `megabytes`
/// megabytes. Zero width or height would divide by zero, so both are
/// required positive and the caller fails on them first; the result may
/// still be zero when the budget is smaller than one buffer, and the pool
/// is then empty — the viewer dies indexing it, never having checked.
pub fn buffer_count(width: u32, height: u32, megabytes: u32) -> (r: u64)
    requires
        width > 0,
        height > 0,
    ensures
        r == (megabytes as int * 1024 * 1024) / (width as int * height as int * 4),
{
    let quarter: u64 = (megabytes as u64) * 262144;
    proof {
        vstd::arithmetic::mul::lemma_mul_upper_bound(
            width as int,
            0xFFFF_FFFF,
            height as int,
            0xFFFF_FFFF,
        );
        vstd::arithmetic::mul::lemma_mul_strictly_positive(width as int, height as int);
    }
    let area: u64 = (width as u64) * (height as u64);
    let r = quarter / area;
    proof {
        let m = megabytes as int;
        let a = width as int * height as int;
        vstd::arithmetic::div_mod::lemma_div_denominator(m * 1024 * 1024, 4, a);
        vstd::arithmetic::div_mod::lemma_div_multiples_vanish(m * 262144, 4);
        assert(m * 1024 * 1024 == 4 * (m * 262144));
        assert(width as int * height as int * 4 == 4 * a);
    }
    r
}

/// The configuration computed once at startup: the window size, the number
/// of buffers the budget affords, and the verbosity flag.
pub struct Config {
    pub verbose: bool,
    pub width: u32,
    pub height: u32,
    pub num_buffers: u64,
}

impl Config {
    /// Builds the startup configuration from the parsed command line.
    pub fn from_args(a: &CmdArgs) -> (r: Config)
        requires
            a.width > 0,
            a.height > 0,
        ensures
            r.verbose == a.verbose,
            r.width == a.width,
            r.height == a.height,
            r.num_buffers == (a.megabytes as int * 1024 * 1024) / (a.width as int * a.height as int
                * 4),
    {
        Config {
            verbose: a.verbose,
            width: a.width,
            height: a.height,
            num_buffers: buffer_count(a.width, a.height, a.megabytes),
        }
    }
}

} // verus!
