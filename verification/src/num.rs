//! Lox numbers are IEEE-754 doubles. Verified code carries them as their
//! 64-bit patterns; comparison, equality, negation and the printing of
//! integer-valued numbers are defined here exactly, at the bit level, while
//! rounding arithmetic, literal parsing and the printing of fractional
//! numbers go through a software IEEE-754 implementation behind trusted
//! wrappers.
use vstd::prelude::*;

use core::str::FromStr;
use rustc_apfloat::ieee::Double;
use rustc_apfloat::Float;

verus! {

pub const F64_SIGN_BIT: u64 = 0x8000_0000_0000_0000;

pub const F64_ABS_MASK: u64 = 0x7fff_ffff_ffff_ffff;

pub const F64_EXP_INF: u64 = 0x7ff0_0000_0000_0000;

/// Sign bit of a double given as its bit pattern.
pub open spec fn f64_sign(b: u64) -> bool {
    b & F64_SIGN_BIT == F64_SIGN_BIT
}

/// The bit pattern with the sign bit cleared.
pub open spec fn f64_abs(b: u64) -> u64 {
    b & F64_ABS_MASK
}

pub open spec fn f64_is_nan(b: u64) -> bool {
    f64_abs(b) > F64_EXP_INF
}

pub open spec fn f64_is_infinite(b: u64) -> bool {
    f64_abs(b) == F64_EXP_INF
}

pub open spec fn f64_is_zero(b: u64) -> bool {
    f64_abs(b) == 0
}

/// IEEE-754 equality on bit patterns: NaN equals nothing, the two zeros are
/// equal, and otherwise equal numbers have equal bit patterns.
pub open spec fn f64_eq(a: u64, b: u64) -> bool {
    &&& !f64_is_nan(a)
    &&& !f64_is_nan(b)
    &&& (a == b || (f64_is_zero(a) && f64_is_zero(b)))
}

/// IEEE-754 `<` on bit patterns: false when either side is NaN; otherwise
/// sign-magnitude order, where the ordering of the magnitude field of two
/// finite same-sign doubles agrees with the numeric order.
pub open spec fn f64_lt(a: u64, b: u64) -> bool {
    &&& !f64_is_nan(a)
    &&& !f64_is_nan(b)
    &&& !f64_eq(a, b)
    &&& if f64_sign(a) && f64_sign(b) {
        f64_abs(a) > f64_abs(b)
    } else if f64_sign(a) {
        true
    } else if f64_sign(b) {
        false
    } else {
        f64_abs(a) < f64_abs(b)
    }
}

pub open spec fn f64_le(a: u64, b: u64) -> bool {
    f64_lt(a, b) || f64_eq(a, b)
}

/// IEEE-754 negation flips the sign bit and nothing else.
pub open spec fn f64_neg(b: u64) -> u64 {
    b ^ F64_SIGN_BIT
}

pub fn bits_sign(b: u64) -> (r: bool)
    ensures
        r == f64_sign(b),
{
    b & F64_SIGN_BIT == F64_SIGN_BIT
}

pub fn bits_abs(b: u64) -> (r: u64)
    ensures
        r == f64_abs(b),
{
    b & F64_ABS_MASK
}

pub fn bits_is_nan(b: u64) -> (r: bool)
    ensures
        r == f64_is_nan(b),
{
    bits_abs(b) > F64_EXP_INF
}

pub fn bits_eq(a: u64, b: u64) -> (r: bool)
    ensures
        r == f64_eq(a, b),
{
    !bits_is_nan(a) && !bits_is_nan(b) && (a == b || (bits_abs(a) == 0 && bits_abs(b) == 0))
}

pub fn bits_lt(a: u64, b: u64) -> (r: bool)
    ensures
        r == f64_lt(a, b),
{
    if bits_is_nan(a) || bits_is_nan(b) || bits_eq(a, b) {
        false
    } else if bits_sign(a) && bits_sign(b) {
        bits_abs(a) > bits_abs(b)
    } else if bits_sign(a) {
        true
    } else if bits_sign(b) {
        false
    } else {
        bits_abs(a) < bits_abs(b)
    }
}

pub fn bits_le(a: u64, b: u64) -> (r: bool)
    ensures
        r == f64_le(a, b),
{
    bits_lt(a, b) || bits_eq(a, b)
}

pub fn bits_neg(b: u64) -> (r: u64)
    ensures
        r == f64_neg(b),
{
    b ^ F64_SIGN_BIT
}

/// The bit pattern of the correctly rounded sum of the doubles `a` and `b`.
pub uninterp spec fn add_bits(a: u64, b: u64) -> u64;

/// The bit pattern of the correctly rounded difference of `a` and `b`.
pub uninterp spec fn sub_bits(a: u64, b: u64) -> u64;

/// The bit pattern of the correctly rounded product of `a` and `b`.
pub uninterp spec fn mul_bits(a: u64, b: u64) -> u64;

/// The bit pattern of the correctly rounded quotient of `a` and `b`.
pub uninterp spec fn div_bits(a: u64, b: u64) -> u64;

/// Relies on rustc_apfloat's `Add for Double`: round-to-nearest-even IEEE-754
/// addition on the 64-bit patterns; total, never panics.
#[verifier::external_body]
pub fn exec_add_bits(a: u64, b: u64) -> (r: u64)
    ensures
        r == add_bits(a, b),
{
    let x = Double::from_bits(a as u128);
    let y = Double::from_bits(b as u128);
    (x + y).value.to_bits() as u64
}

/// Relies on rustc_apfloat's `Sub for Double`: round-to-nearest-even IEEE-754
/// subtraction on the 64-bit patterns; total, never panics.
#[verifier::external_body]
pub fn exec_sub_bits(a: u64, b: u64) -> (r: u64)
    ensures
        r == sub_bits(a, b),
{
    let x = Double::from_bits(a as u128);
    let y = Double::from_bits(b as u128);
    (x - y).value.to_bits() as u64
}

/// Relies on rustc_apfloat's `Mul for Double`: round-to-nearest-even IEEE-754
/// multiplication on the 64-bit patterns; total, never panics.
#[verifier::external_body]
pub fn exec_mul_bits(a: u64, b: u64) -> (r: u64)
    ensures
        r == mul_bits(a, b),
{
    let x = Double::from_bits(a as u128);
    let y = Double::from_bits(b as u128);
    (x * y).value.to_bits() as u64
}

/// Relies on rustc_apfloat's `Div for Double`: round-to-nearest-even IEEE-754
/// division on the 64-bit patterns (infinities on division by zero); total,
/// never panics.
#[verifier::external_body]
pub fn exec_div_bits(a: u64, b: u64) -> (r: u64)
    ensures
        r == div_bits(a, b),
{
    let x = Double::from_bits(a as u128);
    let y = Double::from_bits(b as u128);
    (x / y).value.to_bits() as u64
}

pub open spec fn some_or_zero(o: Option<u64>) -> u64 {
    match o {
        Some(v) => v,
        None => 0,
    }
}

/// The double, if any, that rustc_apfloat's decimal parser reads from `s`,
/// rounding to nearest-even, as its bit pattern.
pub uninterp spec fn bits_of_decimal(s: Seq<char>) -> Option<u64>;

/// A nonempty run of ASCII digits, optionally followed by `.` and a further
/// nonempty run of digits: the numeric literals the lexer accepts.
pub open spec fn is_digit_char(c: char) -> bool {
    '0' <= c && c <= '9'
}

pub open spec fn all_digits(s: Seq<char>) -> bool {
    forall|i: int| 0 <= i < s.len() ==> is_digit_char(#[trigger] s[i])
}

pub open spec fn is_decimal_lit(s: Seq<char>) -> bool {
    exists|k: int|
        {
            &&& 1 <= k <= s.len()
            &&& all_digits(#[trigger] s.subrange(0, k))
            &&& (k == s.len() || (k + 2 <= s.len() && s[k] == '.' && all_digits(
                s.subrange(k + 1, s.len() as int),
            )))
        }
}

/// Relies on rustc_apfloat's `FromStr for Double`: correctly rounded decimal
/// to binary conversion. The parser accepts every string of the lexer's
/// number-literal shape, so on those the result is always `Some`.
#[verifier::external_body]
pub fn exec_bits_of_decimal(s: &str) -> (r: Option<u64>)
    ensures
        r == bits_of_decimal(s@),
        is_decimal_lit(s@) ==> r is Some,
{
    match Double::from_str(s) {
        Ok(d) => Some(d.to_bits() as u64),
        Err(_) => None,
    }
}

/// What rustc_apfloat's display of the double `b` produces when asked for
/// `p` significant decimal digits, with scientific notation suppressed for
/// exponents up to the thousands.
pub uninterp spec fn decimal_of_bits(b: u64, p: int) -> Seq<char>;

/// Relies on rustc_apfloat's `Display for Double`, which never panics; the
/// width argument only raises the threshold for scientific notation.
#[verifier::external_body]
pub fn exec_decimal_of_bits(b: u64, p: usize) -> (r: String)
    ensures
        r@ == decimal_of_bits(b, p as int),
{
    let d = Double::from_bits(b as u128);
    format!("{:1000.*}", p, d)
}

/// The bit pattern of the double nearest to the unsigned integer `n`: the
/// result of parsing its decimal digits.
pub open spec fn bits_of_seconds(n: u64) -> u64 {
    some_or_zero(bits_of_decimal(crate::text::dec_digits(n as nat)))
}

/// The Lox number for the unsigned integer `n`.
pub fn exec_bits_of_seconds(n: u64) -> (r: u64)
    ensures
        r == bits_of_seconds(n),
{
    let s = crate::text::dec_string(n);
    match exec_bits_of_decimal(s.as_str()) {
        Some(b) => b,
        None => 0,
    }
}

pub open spec fn f64_biased_exp(b: u64) -> u64 {
    (b >> 52) & 0x7ff
}

pub open spec fn f64_fraction(b: u64) -> u64 {
    b & 0xf_ffff_ffff_ffff
}

/// The significand with its implicit leading bit, for a normal double.
pub open spec fn f64_sig(b: u64) -> u64 {
    (f64_fraction(b) + 0x10_0000_0000_0000) as u64
}

/// Does `b` hold an integer that fits in 64 bits? True exactly when the
/// unbiased exponent lies in `[0, 63]` and no fractional significand bits
/// are set.
pub open spec fn f64_is_small_int(b: u64) -> bool {
    let e = f64_biased_exp(b);
    &&& 1023 <= e <= 1086
    &&& (e >= 1075 || f64_sig(b) & sub_mask((1075 - e) as u64) == 0)
}

/// The low `k` bits set, for `k < 64`.
pub open spec fn sub_mask(k: u64) -> u64 {
    ((1u64 << k) - 1) as u64
}

/// The magnitude of a small-integer double, as an unsigned integer.
pub open spec fn f64_small_int_val(b: u64) -> u64 {
    let e = f64_biased_exp(b);
    if e >= 1075 {
        f64_sig(b) << (e - 1075)
    } else {
        f64_sig(b) >> (1075 - e)
    }
}

/// The shortest of rustc_apfloat's displays of `b` with 1 to 17 significant
/// digits that parses back to exactly `b`, or the 17-digit display if none
/// shorter round-trips.
pub open spec fn shortest_decimal(b: u64, p: int) -> Seq<char>
    decreases 17 - p,
{
    if p >= 17 {
        decimal_of_bits(b, 17)
    } else if bits_of_decimal(decimal_of_bits(b, p)) == Some(b) {
        decimal_of_bits(b, p)
    } else {
        shortest_decimal(b, p + 1)
    }
}

/// A run of `n` zero digits.
pub open spec fn zero_digits(n: nat) -> Seq<char> {
    Seq::new(n, |i: int| '0')
}

pub open spec fn digit_of(c: char) -> int {
    if c == '0' {
        0
    } else if c == '1' {
        1
    } else if c == '2' {
        2
    } else if c == '3' {
        3
    } else if c == '4' {
        4
    } else if c == '5' {
        5
    } else if c == '6' {
        6
    } else if c == '7' {
        7
    } else if c == '8' {
        8
    } else {
        9
    }
}

/// The first `E` at or after position `i`.
pub open spec fn find_exp_marker(s: Seq<char>, i: int) -> Option<int>
    decreases s.len() - i,
    when 0 <= i <= s.len()
{
    if i >= s.len() {
        None
    } else if s[i] == 'E' {
        Some(i)
    } else {
        find_exp_marker(s, i + 1)
    }
}

pub open spec fn digits_in_range(s: Seq<char>, i: int, j: int) -> bool {
    forall|k: int| i <= k < j ==> is_digit_char(#[trigger] s[k])
}

/// The value of the digit run `s[i..j)`, capped at 500: exponents beyond
/// any double's reach need no exact value.
pub open spec fn exp_value(s: Seq<char>, i: int, j: int) -> int
    decreases j - i,
    when i <= j
{
    if i >= j {
        0
    } else {
        let v = exp_value(s, i, j - 1) * 10 + digit_of(s[j - 1]);
        if v > 500 {
            500
        } else {
            v
        }
    }
}

/// Drop the trailing zeros of a fraction, and a then-bare point.
pub open spec fn strip_fraction_tail(s: Seq<char>) -> Seq<char>
    decreases s.len(),
{
    if s.len() == 0 {
        s
    } else if s.last() == '0' {
        strip_fraction_tail(s.drop_last())
    } else if s.last() == '.' {
        s.drop_last()
    } else {
        s
    }
}

/// Rewrite a display in scientific notation (`d.fffE+x` with an optional
/// leading sign) into its positional form; any other string, and any
/// exponent beyond 400, passes through unchanged.
pub open spec fn sp_expand_scientific(s: Seq<char>) -> Seq<char> {
    match find_exp_marker(s, 0) {
        None => s,
        Some(ep) => {
            let m0: int = if s.len() > 0 && s[0] == '-' {
                1
            } else {
                0
            };
            let shaped = {
                &&& m0 + 2 <= ep
                &&& is_digit_char(s[m0])
                &&& s[m0 + 1] == '.'
                &&& digits_in_range(s, m0 + 2, ep)
                &&& ep + 2 < s.len()
                &&& (s[ep + 1] == '+' || s[ep + 1] == '-')
                &&& digits_in_range(s, ep + 2, s.len() as int)
            };
            if !shaped {
                s
            } else {
                let digits = seq![s[m0]] + s.subrange(m0 + 2, ep);
                let mag = exp_value(s, ep + 2, s.len() as int);
                if mag > 400 {
                    s
                } else {
                    let xe: int = if s[ep + 1] == '-' {
                        -mag
                    } else {
                        mag
                    };
                    let sign: Seq<char> = if m0 == 1 {
                        seq!['-']
                    } else {
                        Seq::empty()
                    };
                    if xe >= digits.len() - 1 {
                        sign + digits + zero_digits((xe - (digits.len() - 1)) as nat)
                    } else if xe >= 0 {
                        sign + strip_fraction_tail(
                            digits.take(xe + 1) + seq!['.'] + digits.skip(xe + 1),
                        )
                    } else {
                        sign + strip_fraction_tail(
                            seq!['0', '.'] + zero_digits((-xe - 1) as nat) + digits,
                        )
                    }
                }
            }
        },
    }
}

/// How a Lox number prints: zeros keep their sign, NaN and the infinities
/// have fixed names, integers that fit in 64 bits print exactly in decimal,
/// and every other number prints as the shortest decimal that parses back
/// to the same double, expanded to positional form where that decimal used
/// scientific notation.
pub open spec fn num_display(b: u64) -> Seq<char> {
    if f64_is_zero(b) {
        if f64_sign(b) {
            "-0"@
        } else {
            "0"@
        }
    } else if f64_is_nan(b) {
        "NaN"@
    } else if f64_is_infinite(b) {
        if f64_sign(b) {
            "-inf"@
        } else {
            "inf"@
        }
    } else if f64_is_small_int(b) {
        if f64_sign(b) {
            seq!['-'] + crate::text::dec_digits(f64_small_int_val(b) as nat)
        } else {
            crate::text::dec_digits(f64_small_int_val(b) as nat)
        }
    } else {
        sp_expand_scientific(shortest_decimal(b, 1))
    }
}

fn exec_shortest_decimal(b: u64, p: usize) -> (r: String)
    requires
        1 <= p <= 17,
    ensures
        r@ == shortest_decimal(b, p as int),
    decreases 17 - p,
{
    let s = exec_decimal_of_bits(b, p);
    if p >= 17 {
        return s;
    }
    match exec_bits_of_decimal(s.as_str()) {
        Some(x) if x == b => s,
        _ => exec_shortest_decimal(b, p + 1),
    }
}

/// The display form of the Lox number whose bit pattern is `b`.
pub fn display_num_bits(b: u64) -> (r: String)
    ensures
        r@ == num_display(b),
{
    let abs = bits_abs(b);
    let neg = bits_sign(b);
    if abs == 0 {
        if neg {
            "-0".to_owned()
        } else {
            "0".to_owned()
        }
    } else if abs > F64_EXP_INF {
        "NaN".to_owned()
    } else if abs == F64_EXP_INF {
        if neg {
            "-inf".to_owned()
        } else {
            "inf".to_owned()
        }
    } else {
        let e = (b >> 52) & 0x7ff;
        let frac = b & 0xf_ffff_ffff_ffff;
        assert(frac <= 0xf_ffff_ffff_ffff) by (bit_vector)
            requires
                frac == b & 0xf_ffff_ffff_ffff,
        ;
        let sig = frac + 0x10_0000_0000_0000;
        let small_int = 1023 <= e && e <= 1086 && (e >= 1075 || sig & sub_mask_exec(
            (1075 - e) as u64,
        ) == 0);
        if small_int {
            let v = if e >= 1075 {
                sig << (e - 1075) as u64
            } else {
                sig >> (1075 - e) as u64
            };
            let mut cs: Vec<char> = Vec::new();
            if neg {
                cs.push('-');
            }
            crate::text::push_dec_digits(v, &mut cs);
            let r = crate::text::string_from_chars(&cs);
            assert(r@ =~= num_display(b));
            r
        } else {
            expand_scientific(&exec_shortest_decimal(b, 1))
        }
    }
}

fn exec_digit_of(c: char) -> (r: u64)
    ensures
        r as int == digit_of(c),
{
    if c == '0' {
        0
    } else if c == '1' {
        1
    } else if c == '2' {
        2
    } else if c == '3' {
        3
    } else if c == '4' {
        4
    } else if c == '5' {
        5
    } else if c == '6' {
        6
    } else if c == '7' {
        7
    } else if c == '8' {
        8
    } else {
        9
    }
}

fn exec_find_exp(cs: &Vec<char>, i: usize) -> (r: Option<usize>)
    requires
        i <= cs@.len(),
    ensures
        match find_exp_marker(cs@, i as int) {
            Some(k) => r is Some && r->0 as int == k && k < cs@.len(),
            None => r is None,
        },
    decreases cs@.len() - i,
{
    if i >= cs.len() {
        None
    } else if cs[i] == 'E' {
        Some(i)
    } else {
        exec_find_exp(cs, i + 1)
    }
}

fn exec_digits_in_range(cs: &Vec<char>, i: usize, j: usize) -> (r: bool)
    requires
        i <= j <= cs@.len(),
    ensures
        r == digits_in_range(cs@, i as int, j as int),
    decreases j - i,
{
    if i >= j {
        true
    } else if '0' <= cs[i] && cs[i] <= '9' {
        let rest = exec_digits_in_range(cs, i + 1, j);
        proof {
            if rest {
                assert forall|k: int| i <= k < j implies is_digit_char(#[trigger] cs@[k]) by {
                    if k > i {
                        assert(is_digit_char(cs@[k]));
                    }
                }
            }
        }
        rest
    } else {
        proof {
            assert(!is_digit_char(cs@[i as int]));
        }
        false
    }
}

fn exec_exp_value(cs: &Vec<char>, i: usize, j: usize) -> (r: u64)
    requires
        i <= j <= cs@.len(),
    ensures
        r as int == exp_value(cs@, i as int, j as int),
        r <= 500,
    decreases j - i,
{
    if i >= j {
        0
    } else {
        let p = exec_exp_value(cs, i, j - 1);
        let v = p * 10 + exec_digit_of(cs[j - 1]);
        if v > 500 {
            500
        } else {
            v
        }
    }
}

fn push_zero_digits(out: &mut Vec<char>, n: usize)
    ensures
        final(out)@ == old(out)@ + zero_digits(n as nat),
{
    let mut k: usize = 0;
    #[verifier::loop_isolation(false)]
    while k < n
        invariant
            k <= n,
            out@ =~= old(out)@ + zero_digits(k as nat),
        decreases n - k,
    {
        out.push('0');
        proof {
            assert(out@ =~= old(out)@ + zero_digits((k + 1) as nat));
        }
        k = k + 1;
    }
    assert(final(out)@ =~= old(out)@ + zero_digits(n as nat));
}

fn push_char_range(out: &mut Vec<char>, cs: &Vec<char>, i: usize, j: usize)
    requires
        i <= j <= cs@.len(),
    ensures
        final(out)@ == old(out)@ + cs@.subrange(i as int, j as int),
{
    let mut k: usize = i;
    #[verifier::loop_isolation(false)]
    while k < j
        invariant
            i <= k <= j,
            out@ =~= old(out)@ + cs@.subrange(i as int, k as int),
        decreases j - k,
    {
        out.push(cs[k]);
        proof {
            assert(out@ =~= old(out)@ + cs@.subrange(i as int, k + 1 as int));
        }
        k = k + 1;
    }
    assert(final(out)@ =~= old(out)@ + cs@.subrange(i as int, j as int));
}

fn strip_tail_in_place(v: &mut Vec<char>)
    ensures
        final(v)@ == strip_fraction_tail(old(v)@),
{
    #[verifier::loop_isolation(false)]
    while v.len() > 0 && v[v.len() - 1] == '0'
        invariant
            strip_fraction_tail(v@) == strip_fraction_tail(old(v)@),
        decreases v@.len(),
    {
        let _ = v.pop();
        proof {
            assert(strip_fraction_tail(v@) == strip_fraction_tail(old(v)@));
        }
    }
    if v.len() > 0 && v[v.len() - 1] == '.' {
        let _ = v.pop();
    }
}

/// Expand a scientific display into its positional form; other strings
/// pass through unchanged.
pub fn expand_scientific(s: &String) -> (r: String)
    ensures
        r@ == sp_expand_scientific(s@),
{
    let cs = crate::text::chars_of(s.as_str());
    let ep = match exec_find_exp(&cs, 0) {
        Some(ep) => ep,
        None => {
            return s.clone();
        },
    };
    let m0: usize = if cs.len() > 0 && cs[0] == '-' {
        1
    } else {
        0
    };
    let shaped = m0 + 2 <= ep && ('0' <= cs[m0] && cs[m0] <= '9') && cs[m0 + 1] == '.'
        && exec_digits_in_range(&cs, m0 + 2, ep) && cs.len() - ep > 2 && (cs[ep + 1] == '+' || cs[
        ep + 1] == '-') && exec_digits_in_range(&cs, ep + 2, cs.len());
    if !shaped {
        return s.clone();
    }
    let mut digits: Vec<char> = Vec::new();
    digits.push(cs[m0]);
    push_char_range(&mut digits, &cs, m0 + 2, ep);
    let ghost digits_spec = seq![cs@[m0 as int]] + cs@.subrange(m0 + 2 as int, ep as int);
    proof {
        assert(digits@ =~= digits_spec);
    }
    let mag = exec_exp_value(&cs, ep + 2, cs.len());
    if mag > 400 {
        return s.clone();
    }
    let neg_exp = cs[ep + 1] == '-';
    let ghost xe: int = if neg_exp {
        -(mag as int)
    } else {
        mag as int
    };
    let mut out: Vec<char> = Vec::new();
    if m0 == 1 {
        out.push('-');
    }
    let ghost sign: Seq<char> = if m0 == 1 {
        seq!['-']
    } else {
        Seq::<char>::empty()
    };
    proof {
        assert(out@ =~= sign);
    }
    let whole = if neg_exp {
        mag == 0 && digits.len() <= 1
    } else {
        mag as usize >= digits.len() - 1
    };
    if whole {
        proof {
            assert(xe >= digits_spec.len() - 1);
        }
        push_char_range(&mut out, &digits, 0, digits.len());
        push_zero_digits(&mut out, mag as usize - (digits.len() - 1));
        proof {
            assert(digits@.subrange(0, digits@.len() as int) =~= digits_spec);
            assert(out@ =~= sign + digits_spec + zero_digits(
                (xe - (digits_spec.len() - 1)) as nat,
            ));
        }
        crate::text::string_from_chars(&out)
    } else if !neg_exp || mag == 0 {
        proof {
            assert(0 <= xe < digits_spec.len() - 1);
        }
        let cut = mag as usize + 1;
        let mut body: Vec<char> = Vec::new();
        push_char_range(&mut body, &digits, 0, cut);
        body.push('.');
        push_char_range(&mut body, &digits, cut, digits.len());
        proof {
            assert(body@ =~= digits_spec.take(xe + 1) + seq!['.'] + digits_spec.skip(xe + 1));
        }
        strip_tail_in_place(&mut body);
        push_char_range(&mut out, &body, 0, body.len());
        proof {
            assert(body@.subrange(0, body@.len() as int) =~= body@);
            assert(out@ =~= sign + strip_fraction_tail(
                digits_spec.take(xe + 1) + seq!['.'] + digits_spec.skip(xe + 1),
            ));
        }
        crate::text::string_from_chars(&out)
    } else {
        proof {
            assert(xe < 0);
        }
        let mut body: Vec<char> = Vec::new();
        body.push('0');
        body.push('.');
        push_zero_digits(&mut body, mag as usize - 1);
        push_char_range(&mut body, &digits, 0, digits.len());
        proof {
            assert(digits@.subrange(0, digits@.len() as int) =~= digits_spec);
            assert(body@ =~= seq!['0', '.'] + zero_digits((-xe - 1) as nat) + digits_spec);
        }
        strip_tail_in_place(&mut body);
        push_char_range(&mut out, &body, 0, body.len());
        proof {
            assert(body@.subrange(0, body@.len() as int) =~= body@);
            assert(out@ =~= sign + strip_fraction_tail(
                seq!['0', '.'] + zero_digits((-xe - 1) as nat) + digits_spec,
            ));
        }
        crate::text::string_from_chars(&out)
    }
}

fn sub_mask_exec(k: u64) -> (r: u64)
    requires
        k < 64,
    ensures
        r == sub_mask(k),
{
    assert(1u64 << k >= 1) by (bit_vector)
        requires
            k < 64,
    ;
    (1u64 << k) - 1
}

} // verus!
