use vstd::prelude::*;
use vstd::string::StringSliceAdditionalSpecFns;

use crate::decimal::Decimal;
use crate::digits::{
    count_byte_range, digit_run_end, digits_val, find_digit_run_end, find_trimmed_bounds,
    lemma_digit_run_end_bounds, pow10, trimmed_bounds,
};
use crate::error::{AppError, ErrorKind};

verus! {

/// The frame rate reported by a probe of the primary video stream: either a
/// `numerator/denominator` ratio, or explicitly unknown. An unknown rate is
/// legitimate domain data, not an error.
#[derive(Clone, Copy, PartialEq, Eq, Structural, Debug)]
pub enum FrameRateReading {
    Unknown,
    Ratio(Decimal, Decimal),
}

/// `[lo, hi)` of `s` holds exactly one decimal numeral: a nonempty digit
/// run, optionally followed by a point and a nonempty digit run, and
/// nothing else.
pub open spec fn numeral_range(s: Seq<u8>, lo: int, hi: int) -> bool {
    let e1 = digit_run_end(s, lo);
    &&& 0 <= lo <= hi <= s.len()
    &&& e1 > lo
    &&& (e1 == hi || (e1 < hi && s[e1] == '.' as u8 && digit_run_end(s, e1 + 1) == hi
        && digit_run_end(s, e1 + 1) > e1 + 1))
}

/// Number of fraction digits of the numeral in `[lo, hi)`.
pub open spec fn numeral_range_scale(s: Seq<u8>, lo: int, hi: int) -> int {
    let e1 = digit_run_end(s, lo);
    if e1 == hi {
        0
    } else {
        hi - (e1 + 1)
    }
}

/// The numeral in `[lo, hi)` as a decimal mantissa at scale
/// `numeral_range_scale`.
pub open spec fn numeral_range_mantissa(s: Seq<u8>, lo: int, hi: int) -> int {
    let e1 = digit_run_end(s, lo);
    digits_val(s.subrange(lo, e1)) * pow10(numeral_range_scale(s, lo, hi) as nat) + (if e1 == hi {
        0int
    } else {
        digits_val(s.subrange(e1 + 1, hi))
    })
}

/// The numeral in `[lo, hi)` is well formed and its value fits the result
/// type.
pub open spec fn numeral_range_ok(s: Seq<u8>, lo: int, hi: int) -> bool {
    &&& numeral_range(s, lo, hi)
    &&& numeral_range_mantissa(s, lo, hi) <= u64::MAX
    &&& numeral_range_scale(s, lo, hi) <= u32::MAX
}

/// `k` is the position of a `/` inside the trimmed portion of `s`.
pub open spec fn rate_split_at(s: Seq<u8>, k: int) -> bool {
    &&& trimmed_bounds(s).0 <= k < trimmed_bounds(s).1
    &&& s[k] == '/' as u8
}

/// What `parse_rate_output` may return for probe output bytes `s`: after
/// trimming, an empty result or one without exactly one `/` is an unknown
/// rate; otherwise the two numerals around the `/` form the ratio, and a
/// malformed or oversized numeral is a parse failure.
pub open spec fn rate_outcome(s: Seq<u8>, r: Result<FrameRateReading, AppError>) -> bool {
    let a = trimmed_bounds(s).0;
    let b = trimmed_bounds(s).1;
    let slashes = count_byte_range(s, a, b, '/' as u8);
    match r {
        Ok(reading) => match reading {
            FrameRateReading::Unknown => a == b || slashes != 1,
            FrameRateReading::Ratio(num, den) => {
                &&& a < b
                &&& slashes == 1
                &&& exists|k: int|
                    {
                        &&& #[trigger] rate_split_at(s, k)
                        &&& numeral_range_ok(s, a, k)
                        &&& numeral_range_ok(s, k + 1, b)
                        &&& num.mantissa == numeral_range_mantissa(s, a, k)
                        &&& num.scale == numeral_range_scale(s, a, k)
                        &&& den.mantissa == numeral_range_mantissa(s, k + 1, b)
                        &&& den.scale == numeral_range_scale(s, k + 1, b)
                    }
            },
        },
        Err(e) => {
            &&& e.kind == ErrorKind::ParseFailed
            &&& a < b
            &&& slashes == 1
            &&& exists|k: int|
                {
                    &&& #[trigger] rate_split_at(s, k)
                    &&& !(numeral_range_ok(s, a, k) && numeral_range_ok(s, k + 1, b))
                }
        },
    }
}

/// Parse the numeral filling `[lo, hi)` of `s`, or report a parse failure.
fn parse_numeral_range(s: &[u8], lo: usize, hi: usize) -> (r: Result<Decimal, AppError>)
    requires
        lo <= hi <= s@.len(),
    ensures
        match r {
            Ok(d) => {
                &&& numeral_range_ok(s@, lo as int, hi as int)
                &&& d.mantissa == numeral_range_mantissa(s@, lo as int, hi as int)
                &&& d.scale == numeral_range_scale(s@, lo as int, hi as int)
            },
            Err(e) => {
                &&& e.kind == ErrorKind::ParseFailed
                &&& !numeral_range_ok(s@, lo as int, hi as int)
            },
        },
{
    let e1: usize = find_digit_run_end(s, lo);
    proof {
        lemma_digit_run_end_bounds(s@, lo as int);
    }
    if e1 <= lo {
        return Err(AppError::with_kind(ErrorKind::ParseFailed, "invalid number"));
    }
    if e1 == hi {
        proof {
            assert(s@.subrange(e1 as int, e1 as int) =~= Seq::<u8>::empty());
        }
        match crate::stats::combine_decimal(s, lo, e1, e1, e1) {
            Ok(d) => {
                return Ok(d);
            },
            Err(e) => {
                return Err(e);
            },
        }
    }
    if e1 > hi {
        return Err(AppError::with_kind(ErrorKind::ParseFailed, "invalid number"));
    }
    if s[e1] != '.' as u8 {
        return Err(AppError::with_kind(ErrorKind::ParseFailed, "invalid number"));
    }
    let f: usize = find_digit_run_end(s, e1 + 1);
    proof {
        lemma_digit_run_end_bounds(s@, e1 + 1);
    }
    if !(f == hi && f > e1 + 1) {
        return Err(AppError::with_kind(ErrorKind::ParseFailed, "invalid number"));
    }
    match crate::stats::combine_decimal(s, lo, e1, e1 + 1, hi) {
        Ok(d) => Ok(d),
        Err(e) => Err(e),
    }
}

/// Interpret the primary output of a frame-rate probe invocation. An empty
/// (trimmed) output, or one that is not split in two by exactly one `/`,
/// signals an unknown rate; otherwise the token must be a
/// `numerator/denominator` pair of decimal numerals.
pub fn parse_rate_output(out: &str) -> (r: Result<FrameRateReading, AppError>)
    ensures
        rate_outcome(out.spec_bytes(), r),
{
    let s: &[u8] = out.as_bytes();
    let bounds = find_trimmed_bounds(s);
    let a: usize = bounds.0;
    let b: usize = bounds.1;
    if a == b {
        return Ok(FrameRateReading::Unknown);
    }
    let mut slashes: usize = 0;
    let mut k: usize = a;
    let mut j: usize = a;
    while j < b
        invariant
            a <= j <= b <= s@.len(),
            slashes <= j - a,
            slashes == count_byte_range(s@, a as int, j as int, '/' as u8),
            slashes >= 1 ==> a <= k < j && s@[k as int] == '/' as u8,
        decreases b - j,
    {
        if s[j] == '/' as u8 {
            if slashes == 0 {
                k = j;
            }
            slashes = slashes + 1;
        }
        j = j + 1;
    }
    if slashes != 1 {
        return Ok(FrameRateReading::Unknown);
    }
    proof {
        assert(rate_split_at(s@, k as int));
    }
    let num = match parse_numeral_range(s, a, k) {
        Ok(d) => d,
        Err(e) => {
            return Err(e);
        },
    };
    let den = match parse_numeral_range(s, k + 1, b) {
        Ok(d) => d,
        Err(e) => {
            return Err(e);
        },
    };
    Ok(FrameRateReading::Ratio(num, den))
}

} // verus!
