//! The closed-form cost model: match probability, expected attempt count,
//! expected time, and the human-readable duration formatter.
//!
//! The probability of one candidate matching a pattern of length `L` over
//! the 58-symbol alphabet is `58^-L` when matching case-sensitively.
//! Case-insensitive matching multiplies it by the number of case variants
//! of the pattern, capped at the alphabet size: `min(58, 2^L)`.  The cap
//! is a deliberate heuristic upper bound, not an exact combinatorial
//! value.  The probability is kept as the exact rational
//! `probability_num / probability_den`, so the expected attempt count is
//! an exact integer ceiling rather than a floating-point estimate.

use vstd::prelude::*;
use vstd::string::*;
use vstd::arithmetic::power::{
    pow,
    lemma_pow0,
    lemma_pow1,
    lemma_pow_positive,
    lemma_pow_strictly_increases,
    lemma_pow_increases,
    lemma_pow_adds,
};
use vstd::arithmetic::div_mod::{
    lemma_fundamental_div_mod_converse,
    lemma_div_is_ordered,
    lemma_div_is_ordered_by_denominator,
    lemma_div_multiples_vanish,
};
use crate::VanityGenerator;
use crate::search::VanityOptions;

verus! {

/// Numerator of the match probability for a pattern of the given length:
/// 1 when case-sensitive, else the case-variant correction `min(58, 2^L)`.
pub open spec fn probability_num(len: nat, case_sensitive: bool) -> int {
    if case_sensitive {
        1
    } else if pow(2, len) < 58 {
        pow(2, len)
    } else {
        58
    }
}

/// Denominator of the match probability: `58^L`.
pub open spec fn probability_den(len: nat) -> int {
    pow(58, len)
}

/// The expected number of attempts until a match: the ceiling of
/// `probability_den / probability_num`, i.e. of `1 / probability`.
pub open spec fn expected_attempts_of(len: nat, case_sensitive: bool) -> int {
    (probability_den(len) + probability_num(len, case_sensitive) - 1) / probability_num(
        len,
        case_sensitive,
    )
}

/// Clips an unbounded count to what a 64-bit counter can hold.
pub open spec fn saturate_u64(n: int) -> int {
    if n > u64::MAX {
        u64::MAX as int
    } else {
        n
    }
}

/// The numerator is at least 1 and at most 58.
proof fn lemma_num_bounds(len: nat, case_sensitive: bool)
    ensures
        1 <= probability_num(len, case_sensitive) <= 58,
{
    lemma_pow_positive(2, len);
}

/// The denominator is positive and no smaller than the numerator.
proof fn lemma_den_ge_num(len: nat, case_sensitive: bool)
    ensures
        probability_den(len) >= 1,
        probability_den(len) >= probability_num(len, case_sensitive),
{
    lemma_pow_positive(58, len);
    if !case_sensitive {
        if pow(2, len) < 58 {
            lemma_pow_le_base(2, 58, len);
        } else {
            lemma_pow0(2);
            lemma_pow1(58);
            assert(len >= 1);
            lemma_pow_increases(58, 1, len);
        }
    }
}

/// Raising a larger base to the same power gives a larger result.
proof fn lemma_pow_le_base(b1: nat, b2: nat, e: nat)
    requires
        1 <= b1 <= b2,
    ensures
        pow(b1 as int, e) <= pow(b2 as int, e),
    decreases e,
{
    reveal(pow);
    if e > 0 {
        let em = (e - 1) as nat;
        lemma_pow_le_base(b1, b2, em);
        lemma_pow_positive(b1 as int, em);
        lemma_pow_positive(b2 as int, em);
        assert(pow(b1 as int, e) == b1 * pow(b1 as int, em));
        assert(pow(b2 as int, e) == b2 * pow(b2 as int, em));
        assert(b1 * pow(b1 as int, em) <= b2 * pow(b2 as int, em)) by (nonlinear_arith)
            requires
                0 <= b1 <= b2,
                0 < pow(b1 as int, em),
                pow(b1 as int, em) <= pow(b2 as int, em),
        ;
    }
}

/// The ceiling division `(d + n - 1) / n` is exactly `d/n` rounded up.
proof fn lemma_ceil_div(d: int, n: int)
    requires
        d >= 0,
        n >= 1,
    ensures
        d % n == 0 ==> (d + n - 1) / n == d / n,
        d % n != 0 ==> (d + n - 1) / n == d / n + 1,
{
    vstd::arithmetic::div_mod::lemma_fundamental_div_mod(d, n);
    let q = d / n;
    let r = d % n;
    if r == 0 {
        assert(d + n - 1 == q * n + (n - 1)) by (nonlinear_arith)
            requires
                d == n * q + r,
                r == 0,
        ;
        lemma_fundamental_div_mod_converse(d + n - 1, n, q, n - 1);
    } else {
        assert(d + n - 1 == (q + 1) * n + (r - 1)) by (nonlinear_arith)
            requires
                d == n * q + r,
        ;
        lemma_fundamental_div_mod_converse(d + n - 1, n, q + 1, r - 1);
    }
}

/// The expected attempt count is the exact ceiling of
/// `probability_den / probability_num` and is at least 1 for every pattern
/// length and case policy: the count `e` satisfies
/// `num * (e - 1) < den <= num * e`.
pub proof fn lemma_expected_attempts_ge_one(len: nat, case_sensitive: bool)
    ensures
        expected_attempts_of(len, case_sensitive) >= 1,
        probability_num(len, case_sensitive) * (expected_attempts_of(len, case_sensitive) - 1)
            < probability_den(len),
        probability_den(len) <= probability_num(len, case_sensitive) * expected_attempts_of(
            len,
            case_sensitive,
        ),
{
    let n = probability_num(len, case_sensitive);
    let d = probability_den(len);
    lemma_num_bounds(len, case_sensitive);
    lemma_den_ge_num(len, case_sensitive);
    lemma_ceil_div(d, n);
    vstd::arithmetic::div_mod::lemma_fundamental_div_mod(d, n);
    let e = expected_attempts_of(len, case_sensitive);
    assert(e >= 1) by (nonlinear_arith)
        requires
            n >= 1,
            d >= n,
            d == n * (d / n) + (d % n),
            0 <= d % n < n,
            (d % n == 0 ==> e == d / n) && (d % n != 0 ==> e == d / n + 1),
    ;
    assert(n * (e - 1) < d && d <= n * e) by (nonlinear_arith)
        requires
            n >= 1,
            d >= n,
            d == n * (d / n) + (d % n),
            0 <= d % n < n,
            (d % n == 0 ==> e == d / n) && (d % n != 0 ==> e == d / n + 1),
    ;
}

/// The match probability `probability_num / probability_den` strictly
/// decreases as the pattern grows, for a fixed case policy; stated by
/// cross-multiplication of the two rationals.
pub proof fn lemma_probability_strictly_decreasing(len1: nat, len2: nat, case_sensitive: bool)
    requires
        len1 < len2,
    ensures
        probability_num(len2, case_sensitive) * probability_den(len1) < probability_num(
            len1,
            case_sensitive,
        ) * probability_den(len2),
{
    let n1 = probability_num(len1, case_sensitive);
    let n2 = probability_num(len2, case_sensitive);
    let d1 = probability_den(len1);
    let d2 = probability_den(len2);
    let k = pow(58, (len2 - len1) as nat);
    lemma_num_bounds(len1, case_sensitive);
    lemma_num_bounds(len2, case_sensitive);
    lemma_pow_positive(58, len1);
    lemma_pow_positive(58, len2);
    lemma_pow_adds(58, len1, (len2 - len1) as nat);
    assert(d2 == d1 * k);
    lemma_pow0(58);
    lemma_pow1(58);
    lemma_pow_increases(58, 1, (len2 - len1) as nat);
    assert(k >= 58);
    if case_sensitive {
        lemma_pow_strictly_increases(58, len1, len2);
    } else {
        if n1 >= 2 {
            assert(n2 < n1 * k) by (nonlinear_arith)
                requires
                    n2 <= 58,
                    n1 >= 2,
                    k >= 58,
            ;
            assert(n2 * d1 < (n1 * k) * d1) by (nonlinear_arith)
                requires
                    n2 < n1 * k,
                    d1 >= 1,
            ;
            assert((n1 * k) * d1 == n1 * (d1 * k)) by (nonlinear_arith);
        } else {
            assert(n1 == 1);
            lemma_pow0(2);
            assert(pow(2, len1) < 58 && pow(2, len1) == 1);
            if len1 > 0 {
                lemma_pow_strictly_increases(2, 0, len1);
            }
            assert(len1 == 0);
            assert(d1 == 1);
            if len2 == 1 {
                lemma_pow1(2);
                assert(n2 == 2);
                assert(d2 == 58);
            } else {
                lemma_pow_strictly_increases(58, 1, len2);
                assert(d2 > 58);
                assert(n2 <= 58);
            }
        }
    }
}

/// Exponentiation by repeated multiplication in 128 bits; `None` when the
/// true power exceeds the 128-bit range.
fn pow_u128(base: u128, exp: usize) -> (r: Option<u128>)
    requires
        base >= 1,
    ensures
        r matches Some(v) ==> v == pow(base as int, exp as nat),
        r is None ==> pow(base as int, exp as nat) > u128::MAX,
{
    let mut acc: u128 = 1;
    let mut i: usize = 0;
    proof {
        lemma_pow0(base as int);
    }
    while i < exp
        invariant
            i <= exp,
            base >= 1,
            acc == pow(base as int, i as nat),
        decreases exp - i,
    {
        acc = match acc.checked_mul(base) {
            Some(v) => v,
            None => {
                proof {
                    lemma_pow_positive(base as int, i as nat);
                    assert(pow(base as int, (i + 1) as nat) == pow(base as int, i as nat) * (
                    base as int)) by {
                        lemma_pow_adds(base as int, i as nat, 1);
                        lemma_pow1(base as int);
                    }
                    lemma_pow_increases(base as nat, (i + 1) as nat, exp as nat);
                }
                return None;
            },
        };
        proof {
            lemma_pow_adds(base as int, i as nat, 1);
            lemma_pow1(base as int);
        }
        i += 1;
    }
    Some(acc)
}

impl VanityGenerator {
    /// The expected number of attempts until a match for this request:
    /// the exact ceiling of `1 / probability`, clipped to the 64-bit
    /// counter range.  Always at least 1.
    pub fn estimate_expected_attempts(&self, options: &VanityOptions) -> (r: u64)
        ensures
            r == saturate_u64(
                expected_attempts_of(options.pattern@.len(), options.case_sensitive),
            ),
            r >= 1,
    {
        let len = options.pattern.as_str().unicode_len();
        let ghost l = options.pattern@.len();
        let ghost n_spec = probability_num(l, options.case_sensitive);
        let ghost d_spec = probability_den(l);
        proof {
            lemma_num_bounds(l, options.case_sensitive);
            lemma_den_ge_num(l, options.case_sensitive);
            lemma_expected_attempts_ge_one(l, options.case_sensitive);
        }
        let num: u128 = if options.case_sensitive {
            1
        } else if len >= 6 {
            proof {
                assert(pow(2, 6) == 64) by {
                    reveal_with_fuel(pow, 7);
                }
                lemma_pow_increases(2, 6, l);
            }
            58
        } else {
            let v = match pow_u128(2, len) {
                Some(v) => v,
                None => {
                    proof {
                        assert(pow(2, 5) == 32) by {
                            reveal_with_fuel(pow, 6);
                        }
                        lemma_pow_increases(2, l, 5);
                        assert(false);
                    }
                    1
                },
            };
            if v < 58 {
                v
            } else {
                58
            }
        };
        assert(num == n_spec);
        let den: u128 = match pow_u128(58, len) {
            Some(v) => v,
            None => {
                // The true denominator exceeds the 128-bit range, so the
                // ceiling exceeds the 64-bit range as well.
                proof {
                    lemma_div_is_ordered(u128::MAX as int + 1, d_spec, num as int);
                    lemma_div_is_ordered_by_denominator(u128::MAX as int + 1, num as int, 58);
                    lemma_div_multiples_vanish(0x400000000000000000000000000000, 58);
                    assert((u128::MAX as int + 1) / 58 >= 0x400000000000000000000000000000) by {
                        lemma_div_is_ordered(
                            0x400000000000000000000000000000int * 58,
                            u128::MAX as int + 1,
                            58,
                        );
                    }
                    lemma_div_is_ordered(d_spec, d_spec + num - 1, num as int);
                }
                return u64::MAX;
            },
        };
        let q = den / num;
        let rem = den % num;
        let e: u128 = if rem == 0 {
            q
        } else {
            proof {
                lemma_div_is_ordered_by_denominator(den as int, 2, num as int);
            }
            q + 1
        };
        proof {
            lemma_ceil_div(den as int, num as int);
        }
        if e > 0xffffffffffffffff {
            u64::MAX
        } else {
            e as u64
        }
    }

    /// The expected wall-clock seconds until a match, assuming a fixed
    /// throughput of 50,000 attempts per second for one worker.
    pub fn estimate_expected_time(&self, options: &VanityOptions) -> (r: u64)
        ensures
            r == saturate_u64(
                expected_attempts_of(options.pattern@.len(), options.case_sensitive),
            ) / 50000,
    {
        let attempts = self.estimate_expected_attempts(options);
        attempts / 50000
    }

    /// Renders a duration, given in whole seconds, in the human-readable
    /// bucketed shape that `duration_text` describes.
    pub fn format_duration(&self, total_seconds: u64) -> (r: String)
        ensures
            r@ == duration_text(total_seconds as nat),
    {
        if total_seconds < 1 {
            "< 1 second".to_owned()
        } else if total_seconds < 60 {
            let mut s = String::new();
            push_decimal(total_seconds, &mut s);
            s.append(" seconds");
            s
        } else if total_seconds < 3600 {
            let minutes = total_seconds / 60;
            let seconds = total_seconds % 60;
            let mut s = String::new();
            push_decimal(minutes, &mut s);
            if seconds == 0 {
                s.append(" minutes");
            } else {
                s.append("m ");
                push_decimal(seconds, &mut s);
                s.append("s");
            }
            s
        } else if total_seconds < 86400 {
            let hours = total_seconds / 3600;
            let minutes = (total_seconds % 3600) / 60;
            let mut s = String::new();
            push_decimal(hours, &mut s);
            if minutes == 0 {
                s.append(" hours");
            } else {
                s.append("h ");
                push_decimal(minutes, &mut s);
                s.append("m");
            }
            s
        } else {
            let days = total_seconds / 86400;
            let hours = (total_seconds % 86400) / 3600;
            let mut s = String::new();
            push_decimal(days, &mut s);
            if hours == 0 {
                s.append(" days");
            } else {
                s.append("d ");
                push_decimal(hours, &mut s);
                s.append("h");
            }
            s
        }
    }
}

/// The decimal digit `d` as a character.
pub open spec fn digit_char(d: nat) -> char {
    if d == 0 {
        '0'
    } else if d == 1 {
        '1'
    } else if d == 2 {
        '2'
    } else if d == 3 {
        '3'
    } else if d == 4 {
        '4'
    } else if d == 5 {
        '5'
    } else if d == 6 {
        '6'
    } else if d == 7 {
        '7'
    } else if d == 8 {
        '8'
    } else {
        '9'
    }
}

/// The usual decimal rendering of a number, without leading zeroes.
pub open spec fn decimal_text(n: nat) -> Seq<char>
    decreases n,
{
    if n < 10 {
        seq![digit_char(n)]
    } else {
        decimal_text(n / 10).push(digit_char(n % 10))
    }
}

/// The human-readable shape of a duration of whole seconds: sub-second
/// durations collapse to "< 1 second"; below a minute the seconds are
/// spelled out; below an hour, "{m}m {s}s" (or "{m} minutes" on a whole
/// minute); below a day, "{h}h {m}m" (or "{h} hours" on a whole hour);
/// beyond that, "{d}d {h}h" (or "{d} days" on a whole day).
pub open spec fn duration_text(total_seconds: nat) -> Seq<char> {
    if total_seconds < 1 {
        "< 1 second"@
    } else if total_seconds < 60 {
        decimal_text(total_seconds) + " seconds"@
    } else if total_seconds < 3600 {
        let minutes = total_seconds / 60;
        let seconds = total_seconds % 60;
        if seconds == 0 {
            decimal_text(minutes) + " minutes"@
        } else {
            decimal_text(minutes) + "m "@ + decimal_text(seconds) + "s"@
        }
    } else if total_seconds < 86400 {
        let hours = total_seconds / 3600;
        let minutes = (total_seconds % 3600) / 60;
        if minutes == 0 {
            decimal_text(hours) + " hours"@
        } else {
            decimal_text(hours) + "h "@ + decimal_text(minutes) + "m"@
        }
    } else {
        let days = total_seconds / 86400;
        let hours = (total_seconds % 86400) / 3600;
        if hours == 0 {
            decimal_text(days) + " days"@
        } else {
            decimal_text(days) + "d "@ + decimal_text(hours) + "h"@
        }
    }
}

/// One decimal digit as a borrowed string.
fn digit_str(d: u64) -> (r: &'static str)
    requires
        d < 10,
    ensures
        r@ == seq![digit_char(d as nat)],
{
    if d == 0 {
        proof {
            reveal_strlit("0");
            assert("0"@ =~= seq![digit_char(0)]);
        }
        "0"
    } else if d == 1 {
        proof {
            reveal_strlit("1");
            assert("1"@ =~= seq![digit_char(1)]);
        }
        "1"
    } else if d == 2 {
        proof {
            reveal_strlit("2");
            assert("2"@ =~= seq![digit_char(2)]);
        }
        "2"
    } else if d == 3 {
        proof {
            reveal_strlit("3");
            assert("3"@ =~= seq![digit_char(3)]);
        }
        "3"
    } else if d == 4 {
        proof {
            reveal_strlit("4");
            assert("4"@ =~= seq![digit_char(4)]);
        }
        "4"
    } else if d == 5 {
        proof {
            reveal_strlit("5");
            assert("5"@ =~= seq![digit_char(5)]);
        }
        "5"
    } else if d == 6 {
        proof {
            reveal_strlit("6");
            assert("6"@ =~= seq![digit_char(6)]);
        }
        "6"
    } else if d == 7 {
        proof {
            reveal_strlit("7");
            assert("7"@ =~= seq![digit_char(7)]);
        }
        "7"
    } else if d == 8 {
        proof {
            reveal_strlit("8");
            assert("8"@ =~= seq![digit_char(8)]);
        }
        "8"
    } else {
        proof {
            reveal_strlit("9");
            assert("9"@ =~= seq![digit_char(9)]);
        }
        "9"
    }
}

/// Appends the decimal rendering of `n` to `out`.
fn push_decimal(n: u64, out: &mut String)
    ensures
        final(out)@ == old(out)@ + decimal_text(n as nat),
    decreases n,
{
    if n >= 10 {
        push_decimal(n / 10, out);
        let d = digit_str(n % 10);
        out.append(d);
        proof {
            assert(out@ =~= old(out)@ + decimal_text(n as nat));
        }
    } else {
        let d = digit_str(n);
        out.append(d);
        proof {
            assert(out@ =~= old(out)@ + decimal_text(n as nat));
        }
    }
}

} // verus!
