use vstd::prelude::*;
use vstd::string::StringSliceAdditionalSpecFns;

use crate::decimal::Decimal;
use crate::digits::{
    bytes_at, digit_run_end, digits_in_range, digits_val, checked_mul_pow10, find_digit_run_end,
    lemma_digit_run_end_bounds, lemma_digits_val_nonneg, match_bytes_at, parse_u64_in_range,
    pow10,
};
use crate::error::{AppError, ErrorKind};

verus! {

// ---------------------------------------------------------------------------
// Duration: the pattern `Duration: H:M:S.F` with decimal digit runs H, M, S, F.
// ---------------------------------------------------------------------------

/// The bytes of the literal `Duration: `.
pub open spec fn duration_lit() -> Seq<u8> {
    seq![
        'D' as u8,
        'u' as u8,
        'r' as u8,
        'a' as u8,
        't' as u8,
        'i' as u8,
        'o' as u8,
        'n' as u8,
        ':' as u8,
        ' ' as u8,
    ]
}

fn duration_lit_vec() -> (v: Vec<u8>)
    ensures
        v@ == duration_lit(),
{
    let v: Vec<u8> = vec![
        'D' as u8,
        'u' as u8,
        'r' as u8,
        'a' as u8,
        't' as u8,
        'i' as u8,
        'o' as u8,
        'n' as u8,
        ':' as u8,
        ' ' as u8,
    ];
    proof {
        assert(v@ =~= duration_lit());
    }
    v
}

/// End of the hours digit run, which starts right after the literal.
pub open spec fn dur_e1(s: Seq<u8>, i: int) -> int {
    digit_run_end(s, i + 10)
}

/// End of the minutes digit run.
pub open spec fn dur_e2(s: Seq<u8>, i: int) -> int {
    digit_run_end(s, dur_e1(s, i) + 1)
}

/// End of the whole-seconds digit run.
pub open spec fn dur_e3(s: Seq<u8>, i: int) -> int {
    digit_run_end(s, dur_e2(s, i) + 1)
}

/// End of the fraction digit run.
pub open spec fn dur_e4(s: Seq<u8>, i: int) -> int {
    digit_run_end(s, dur_e3(s, i) + 1)
}

/// The duration pattern matches in `s` at position `i`: the literal, then a
/// nonempty digit run, `:`, a nonempty digit run, `:`, a nonempty digit run,
/// `.`, and a final nonempty digit run, each run maximal.
pub open spec fn duration_match_at(s: Seq<u8>, i: int) -> bool {
    &&& bytes_at(s, i, duration_lit())
    &&& dur_e1(s, i) > i + 10
    &&& dur_e1(s, i) < s.len()
    &&& s[dur_e1(s, i)] == ':' as u8
    &&& dur_e2(s, i) > dur_e1(s, i) + 1
    &&& dur_e2(s, i) < s.len()
    &&& s[dur_e2(s, i)] == ':' as u8
    &&& dur_e3(s, i) > dur_e2(s, i) + 1
    &&& dur_e3(s, i) < s.len()
    &&& s[dur_e3(s, i)] == '.' as u8
    &&& dur_e4(s, i) > dur_e3(s, i) + 1
}

/// The pattern matches at `i` and nowhere earlier.
pub open spec fn leftmost_duration_at(s: Seq<u8>, i: int) -> bool {
    &&& duration_match_at(s, i)
    &&& forall|j: int| 0 <= j < i ==> !duration_match_at(s, j)
}

pub open spec fn duration_hours(s: Seq<u8>, i: int) -> int {
    digits_val(s.subrange(i + 10, dur_e1(s, i)))
}

pub open spec fn duration_minutes(s: Seq<u8>, i: int) -> int {
    digits_val(s.subrange(dur_e1(s, i) + 1, dur_e2(s, i)))
}

pub open spec fn duration_whole_seconds(s: Seq<u8>, i: int) -> int {
    digits_val(s.subrange(dur_e2(s, i) + 1, dur_e3(s, i)))
}

pub open spec fn duration_frac(s: Seq<u8>, i: int) -> int {
    digits_val(s.subrange(dur_e3(s, i) + 1, dur_e4(s, i)))
}

/// Number of fraction digits, which becomes the scale of the result.
pub open spec fn duration_frac_len(s: Seq<u8>, i: int) -> int {
    dur_e4(s, i) - (dur_e3(s, i) + 1)
}

/// The total duration in seconds, `hours*3600 + minutes*60 + seconds`, as a
/// decimal mantissa at the scale of the fraction run.
pub open spec fn duration_mantissa(s: Seq<u8>, i: int) -> int {
    (duration_hours(s, i) * 3600 + duration_minutes(s, i) * 60 + duration_whole_seconds(s, i))
        * pow10(duration_frac_len(s, i) as nat) + duration_frac(s, i)
}

/// What `parse_duration` may return for input bytes `s`: `None` exactly when
/// the pattern is absent; otherwise the value of the leftmost match, or a
/// parse failure exactly when that value does not fit the result type.
pub open spec fn duration_outcome(s: Seq<u8>, r: Result<Option<Decimal>, AppError>) -> bool {
    match r {
        Ok(o) => match o {
            None => forall|i: int| !duration_match_at(s, i),
            Some(d) => exists|i: int|
                {
                    &&& #[trigger] leftmost_duration_at(s, i)
                    &&& d.mantissa == duration_mantissa(s, i)
                    &&& d.scale == duration_frac_len(s, i)
                },
        },
        Err(e) => {
            &&& e.kind == ErrorKind::ParseFailed
            &&& exists|i: int|
                {
                    &&& #[trigger] leftmost_duration_at(s, i)
                    &&& (duration_mantissa(s, i) > u64::MAX || duration_frac_len(s, i)
                        > u32::MAX)
                }
        },
    }
}

/// Check the digit-run tail of the duration pattern at `i`, after the literal
/// has already matched there.
fn duration_tail(s: &[u8], i: usize) -> (r: Option<(usize, usize, usize, usize)>)
    requires
        i + 10 <= s@.len(),
        bytes_at(s@, i as int, duration_lit()),
    ensures
        match r {
            Some(e) => {
                &&& duration_match_at(s@, i as int)
                &&& e.0 == dur_e1(s@, i as int)
                &&& e.1 == dur_e2(s@, i as int)
                &&& e.2 == dur_e3(s@, i as int)
                &&& e.3 == dur_e4(s@, i as int)
            },
            None => !duration_match_at(s@, i as int),
        },
{
    let n: usize = s.len();
    let e1: usize = find_digit_run_end(s, i + 10);
    if !(e1 > i + 10 && e1 < n && s[e1] == ':' as u8) {
        return None;
    }
    let e2: usize = find_digit_run_end(s, e1 + 1);
    if !(e2 > e1 + 1 && e2 < n && s[e2] == ':' as u8) {
        return None;
    }
    let e3: usize = find_digit_run_end(s, e2 + 1);
    if !(e3 > e2 + 1 && e3 < n && s[e3] == '.' as u8) {
        return None;
    }
    let e4: usize = find_digit_run_end(s, e3 + 1);
    if !(e4 > e3 + 1) {
        return None;
    }
    Some((e1, e2, e3, e4))
}

/// Combine the four captured digit runs of a duration match into a `Decimal`,
/// or report a parse failure when the value does not fit.
fn duration_value(s: &[u8], i: usize, e1: usize, e2: usize, e3: usize, e4: usize) -> (r: Result<
    Decimal,
    AppError,
>)
    requires
        duration_match_at(s@, i as int),
        e1 == dur_e1(s@, i as int),
        e2 == dur_e2(s@, i as int),
        e3 == dur_e3(s@, i as int),
        e4 == dur_e4(s@, i as int),
    ensures
        match r {
            Ok(d) => {
                &&& d.mantissa == duration_mantissa(s@, i as int)
                &&& d.scale == duration_frac_len(s@, i as int)
            },
            Err(e) => {
                &&& e.kind == ErrorKind::ParseFailed
                &&& (duration_mantissa(s@, i as int) > u64::MAX || duration_frac_len(
                    s@,
                    i as int,
                ) > u32::MAX)
            },
        },
{
    let ghost gi = i as int;
    proof {
        lemma_digit_run_end_bounds(s@, gi + 10);
        lemma_digit_run_end_bounds(s@, e1 + 1);
        lemma_digit_run_end_bounds(s@, e2 + 1);
        lemma_digit_run_end_bounds(s@, e3 + 1);
        lemma_digits_val_nonneg(s@.subrange(gi + 10, e1 as int));
        lemma_digits_val_nonneg(s@.subrange(e1 + 1, e2 as int));
        lemma_digits_val_nonneg(s@.subrange(e2 + 1, e3 as int));
        lemma_digits_val_nonneg(s@.subrange(e3 + 1, e4 as int));
        crate::digits::lemma_pow10_pos(duration_frac_len(s@, gi) as nat);
    }
    let ghost h_v = duration_hours(s@, gi);
    let ghost m_v = duration_minutes(s@, gi);
    let ghost si_v = duration_whole_seconds(s@, gi);
    let ghost f_v = duration_frac(s@, gi);
    let ghost fl = duration_frac_len(s@, gi);
    let ghost w_v = h_v * 3600 + m_v * 60 + si_v;
    proof {
        assert(duration_mantissa(s@, gi) == w_v * pow10(fl as nat) + f_v);
        assert(w_v * pow10(fl as nat) >= w_v) by (nonlinear_arith)
            requires
                w_v >= 0,
                pow10(fl as nat) >= 1,
        ;
        assert(w_v * pow10(fl as nat) >= 0) by (nonlinear_arith)
            requires
                w_v >= 0,
                pow10(fl as nat) >= 0,
        ;
    }
    let h: u64 = match parse_u64_in_range(s, i + 10, e1) {
        Some(v) => v,
        None => {
            return Err(AppError::with_kind(ErrorKind::ParseFailed, "duration out of range"));
        },
    };
    let m: u64 = match parse_u64_in_range(s, e1 + 1, e2) {
        Some(v) => v,
        None => {
            return Err(AppError::with_kind(ErrorKind::ParseFailed, "duration out of range"));
        },
    };
    let si: u64 = match parse_u64_in_range(s, e2 + 1, e3) {
        Some(v) => v,
        None => {
            return Err(AppError::with_kind(ErrorKind::ParseFailed, "duration out of range"));
        },
    };
    let f: u64 = match parse_u64_in_range(s, e3 + 1, e4) {
        Some(v) => v,
        None => {
            return Err(AppError::with_kind(ErrorKind::ParseFailed, "duration out of range"));
        },
    };
    if e4 - (e3 + 1) > (u32::MAX as usize) {
        return Err(AppError::with_kind(ErrorKind::ParseFailed, "duration out of range"));
    }
    let scale: u32 = (e4 - (e3 + 1)) as u32;
    let hs: u64 = match h.checked_mul(3600) {
        Some(v) => v,
        None => {
            return Err(AppError::with_kind(ErrorKind::ParseFailed, "duration out of range"));
        },
    };
    let ms: u64 = match m.checked_mul(60) {
        Some(v) => v,
        None => {
            return Err(AppError::with_kind(ErrorKind::ParseFailed, "duration out of range"));
        },
    };
    let w1: u64 = match hs.checked_add(ms) {
        Some(v) => v,
        None => {
            return Err(AppError::with_kind(ErrorKind::ParseFailed, "duration out of range"));
        },
    };
    let w: u64 = match w1.checked_add(si) {
        Some(v) => v,
        None => {
            return Err(AppError::with_kind(ErrorKind::ParseFailed, "duration out of range"));
        },
    };
    let scaled: u64 = match checked_mul_pow10(w, scale) {
        Some(v) => v,
        None => {
            return Err(AppError::with_kind(ErrorKind::ParseFailed, "duration out of range"));
        },
    };
    let mantissa: u64 = match scaled.checked_add(f) {
        Some(v) => v,
        None => {
            return Err(AppError::with_kind(ErrorKind::ParseFailed, "duration out of range"));
        },
    };
    Ok(Decimal { mantissa, scale })
}

/// Extract the total duration in seconds from decoder diagnostic text.
///
/// A `Duration: H:M:S.F` pattern that is absent is not an error: the result
/// is then `Ok(None)`. A present pattern whose value does not fit yields a
/// `ParseFailed` error.
pub fn parse_duration(text: &str) -> (r: Result<Option<Decimal>, AppError>)
    ensures
        duration_outcome(text.spec_bytes(), r),
{
    let s: &[u8] = text.as_bytes();
    let lit: Vec<u8> = duration_lit_vec();
    let n: usize = s.len();
    let mut i: usize = 0;
    while i < n
        invariant
            s@ == text.spec_bytes(),
            lit@ == duration_lit(),
            n == s@.len(),
            0 <= i <= n,
            forall|j: int| 0 <= j < i ==> !duration_match_at(s@, j),
        decreases n - i,
    {
        if match_bytes_at(s, i, lit.as_slice()) {
            if let Some((e1, e2, e3, e4)) = duration_tail(s, i) {
                match duration_value(s, i, e1, e2, e3, e4) {
                    Ok(d) => {
                        proof {
                            assert(leftmost_duration_at(s@, i as int));
                        }
                        return Ok(Some(d));
                    },
                    Err(e) => {
                        proof {
                            assert(leftmost_duration_at(s@, i as int));
                        }
                        return Err(e);
                    },
                }
            }
        }
        proof {
            assert(!duration_match_at(s@, i as int));
        }
        i = i + 1;
    }
    proof {
        assert forall|j: int| !duration_match_at(s@, j) by {
            if 0 <= j < n {
            } else {
                assert(!bytes_at(s@, j, duration_lit()));
            }
        }
    }
    Ok(None)
}

// ---------------------------------------------------------------------------
// A shared step: a whole decimal number captured as an integer digit run and
// an optional fraction digit run.
// ---------------------------------------------------------------------------

/// Combine an integer digit run `[a, b)` and a fraction digit run `[c, d)`
/// (possibly empty) into a `Decimal`, or report a parse failure when the
/// mantissa or scale does not fit.
pub(crate) fn combine_decimal(s: &[u8], a: usize, b: usize, c: usize, d: usize) -> (r: Result<
    Decimal,
    AppError,
>)
    requires
        a <= b <= s@.len(),
        c <= d <= s@.len(),
        digits_in_range(s@, a as int, b as int),
        digits_in_range(s@, c as int, d as int),
    ensures
        ({
            let mant = digits_val(s@.subrange(a as int, b as int)) * pow10((d - c) as nat)
                + digits_val(s@.subrange(c as int, d as int));
            match r {
                Ok(dec) => dec.mantissa == mant && dec.scale == d - c,
                Err(e) => e.kind == ErrorKind::ParseFailed && (mant > u64::MAX || d - c
                    > u32::MAX),
            }
        }),
{
    let ghost iv = digits_val(s@.subrange(a as int, b as int));
    let ghost fv = digits_val(s@.subrange(c as int, d as int));
    let ghost fl = d - c;
    proof {
        lemma_digits_val_nonneg(s@.subrange(a as int, b as int));
        lemma_digits_val_nonneg(s@.subrange(c as int, d as int));
        crate::digits::lemma_pow10_pos(fl as nat);
        assert(iv * pow10(fl as nat) >= iv) by (nonlinear_arith)
            requires
                iv >= 0,
                pow10(fl as nat) >= 1,
        ;
        assert(iv * pow10(fl as nat) >= 0) by (nonlinear_arith)
            requires
                iv >= 0,
                pow10(fl as nat) >= 0,
        ;
    }
    let int_part: u64 = match parse_u64_in_range(s, a, b) {
        Some(v) => v,
        None => {
            return Err(AppError::with_kind(ErrorKind::ParseFailed, "number out of range"));
        },
    };
    let frac_part: u64 = match parse_u64_in_range(s, c, d) {
        Some(v) => v,
        None => {
            return Err(AppError::with_kind(ErrorKind::ParseFailed, "number out of range"));
        },
    };
    if d - c > (u32::MAX as usize) {
        return Err(AppError::with_kind(ErrorKind::ParseFailed, "number out of range"));
    }
    let scale: u32 = (d - c) as u32;
    let scaled: u64 = match checked_mul_pow10(int_part, scale) {
        Some(v) => v,
        None => {
            return Err(AppError::with_kind(ErrorKind::ParseFailed, "number out of range"));
        },
    };
    let mantissa: u64 = match scaled.checked_add(frac_part) {
        Some(v) => v,
        None => {
            return Err(AppError::with_kind(ErrorKind::ParseFailed, "number out of range"));
        },
    };
    Ok(Decimal { mantissa, scale })
}

// ---------------------------------------------------------------------------
// Frame rate: a decimal number immediately followed by ` fps`.
// ---------------------------------------------------------------------------

/// The bytes of the literal ` fps`.
pub open spec fn fps_lit() -> Seq<u8> {
    seq![' ' as u8, 'f' as u8, 'p' as u8, 's' as u8]
}

fn fps_lit_vec() -> (v: Vec<u8>)
    ensures
        v@ == fps_lit(),
{
    let v: Vec<u8> = vec![' ' as u8, 'f' as u8, 'p' as u8, 's' as u8];
    proof {
        assert(v@ =~= fps_lit());
    }
    v
}

/// End of the integer digit run starting at `i`.
pub open spec fn fr_e1(s: Seq<u8>, i: int) -> int {
    digit_run_end(s, i)
}

/// The number at `i` continues with a `.` and a nonempty fraction run.
pub open spec fn fr_has_frac(s: Seq<u8>, i: int) -> bool {
    &&& fr_e1(s, i) < s.len()
    &&& s[fr_e1(s, i)] == '.' as u8
    &&& digit_run_end(s, fr_e1(s, i) + 1) > fr_e1(s, i) + 1
}

/// End of the fraction digit run.
pub open spec fn fr_fend(s: Seq<u8>, i: int) -> int {
    digit_run_end(s, fr_e1(s, i) + 1)
}

/// End of the whole captured number at `i`.
pub open spec fn fr_end(s: Seq<u8>, i: int) -> int {
    if fr_has_frac(s, i) {
        fr_fend(s, i)
    } else {
        fr_e1(s, i)
    }
}

/// The frame-rate pattern matches at `i`: a nonempty digit run, optionally a
/// point and a nonempty digit run, then the literal ` fps`.
pub open spec fn fr_match_at(s: Seq<u8>, i: int) -> bool {
    &&& 0 <= i
    &&& i <= s.len()
    &&& fr_e1(s, i) > i
    &&& bytes_at(s, fr_end(s, i), fps_lit())
}

pub open spec fn leftmost_fr_at(s: Seq<u8>, i: int) -> bool {
    &&& fr_match_at(s, i)
    &&& forall|j: int| 0 <= j < i ==> !fr_match_at(s, j)
}

/// Number of fraction digits of the captured number.
pub open spec fn fr_frac_len(s: Seq<u8>, i: int) -> int {
    if fr_has_frac(s, i) {
        fr_fend(s, i) - (fr_e1(s, i) + 1)
    } else {
        0
    }
}

/// The captured number as a decimal mantissa at scale `fr_frac_len`.
pub open spec fn fr_mantissa(s: Seq<u8>, i: int) -> int {
    digits_val(s.subrange(i, fr_e1(s, i))) * pow10(fr_frac_len(s, i) as nat) + (if fr_has_frac(
        s,
        i,
    ) {
        digits_val(s.subrange(fr_e1(s, i) + 1, fr_fend(s, i)))
    } else {
        0
    })
}

/// What `parse_frame_rate` may return for input bytes `s`.
pub open spec fn frame_rate_outcome(s: Seq<u8>, r: Result<Option<Decimal>, AppError>) -> bool {
    match r {
        Ok(o) => match o {
            None => forall|i: int| !fr_match_at(s, i),
            Some(d) => exists|i: int|
                {
                    &&& #[trigger] leftmost_fr_at(s, i)
                    &&& d.mantissa == fr_mantissa(s, i)
                    &&& d.scale == fr_frac_len(s, i)
                },
        },
        Err(e) => {
            &&& e.kind == ErrorKind::ParseFailed
            &&& exists|i: int|
                {
                    &&& #[trigger] leftmost_fr_at(s, i)
                    &&& (fr_mantissa(s, i) > u64::MAX || fr_frac_len(s, i) > u32::MAX)
                }
        },
    }
}

/// Extract the frame rate from decoder diagnostic text: the first decimal
/// number written immediately before ` fps`. Absence yields `Ok(None)`.
pub fn parse_frame_rate(text: &str) -> (r: Result<Option<Decimal>, AppError>)
    ensures
        frame_rate_outcome(text.spec_bytes(), r),
{
    let s: &[u8] = text.as_bytes();
    let lit: Vec<u8> = fps_lit_vec();
    let n: usize = s.len();
    let mut i: usize = 0;
    while i < n
        invariant
            s@ == text.spec_bytes(),
            lit@ == fps_lit(),
            n == s@.len(),
            0 <= i <= n,
            forall|j: int| 0 <= j < i ==> !fr_match_at(s@, j),
        decreases n - i,
    {
        let e1: usize = find_digit_run_end(s, i);
        if e1 > i {
            let mut has_frac: bool = false;
            let mut num_end: usize = e1;
            let mut fend: usize = e1;
            if e1 < n && s[e1] == '.' as u8 {
                fend = find_digit_run_end(s, e1 + 1);
                if fend > e1 + 1 {
                    has_frac = true;
                    num_end = fend;
                }
            }
            proof {
                assert(has_frac == fr_has_frac(s@, i as int));
                assert(num_end == fr_end(s@, i as int));
            }
            if match_bytes_at(s, num_end, lit.as_slice()) {
                proof {
                    assert(fr_match_at(s@, i as int));
                    lemma_digit_run_end_bounds(s@, i as int);
                    lemma_digit_run_end_bounds(s@, e1 + 1);
                }
                let res = if has_frac {
                    combine_decimal(s, i, e1, e1 + 1, fend)
                } else {
                    combine_decimal(s, i, e1, e1, e1)
                };
                proof {
                    assert(leftmost_fr_at(s@, i as int));
                    if !fr_has_frac(s@, i as int) {
                        assert(s@.subrange(e1 as int, e1 as int) =~= Seq::<u8>::empty());
                    }
                }
                match res {
                    Ok(d) => {
                        return Ok(Some(d));
                    },
                    Err(e) => {
                        return Err(e);
                    },
                }
            }
        }
        proof {
            assert(!fr_match_at(s@, i as int));
        }
        i = i + 1;
    }
    proof {
        assert forall|j: int| !fr_match_at(s@, j) by {
            if 0 <= j < n {
            } else if j == n {
                assert(digit_run_end(s@, j) == j);
            }
        }
    }
    Ok(None)
}

// ---------------------------------------------------------------------------
// Dimensions: `WxH` immediately followed by ` [SAR`, or standing anywhere.
// ---------------------------------------------------------------------------

/// The bytes of the literal ` [SAR`.
pub open spec fn sar_lit() -> Seq<u8> {
    seq![' ' as u8, '[' as u8, 'S' as u8, 'A' as u8, 'R' as u8]
}

fn sar_lit_vec() -> (v: Vec<u8>)
    ensures
        v@ == sar_lit(),
{
    let v: Vec<u8> = vec![' ' as u8, '[' as u8, 'S' as u8, 'A' as u8, 'R' as u8];
    proof {
        assert(v@ =~= sar_lit());
    }
    v
}

/// End of the width digit run starting at `i`.
pub open spec fn dim_e1(s: Seq<u8>, i: int) -> int {
    digit_run_end(s, i)
}

/// End of the height digit run, after the `x`.
pub open spec fn dim_e2(s: Seq<u8>, i: int) -> int {
    digit_run_end(s, dim_e1(s, i) + 1)
}

/// A `WxH` token matches at `i`: nonempty digit run, `x`, nonempty digit run.
pub open spec fn dim_token_at(s: Seq<u8>, i: int) -> bool {
    &&& 0 <= i
    &&& i <= s.len()
    &&& dim_e1(s, i) > i
    &&& dim_e1(s, i) < s.len()
    &&& s[dim_e1(s, i)] == 'x' as u8
    &&& dim_e2(s, i) > dim_e1(s, i) + 1
}

/// A `WxH` token immediately followed by ` [SAR` matches at `i`.
pub open spec fn dim_sar_at(s: Seq<u8>, i: int) -> bool {
    &&& dim_token_at(s, i)
    &&& bytes_at(s, dim_e2(s, i), sar_lit())
}

pub open spec fn dim_width(s: Seq<u8>, i: int) -> int {
    digits_val(s.subrange(i, dim_e1(s, i)))
}

pub open spec fn dim_height(s: Seq<u8>, i: int) -> int {
    digits_val(s.subrange(dim_e1(s, i) + 1, dim_e2(s, i)))
}

pub open spec fn leftmost_dim_sar_at(s: Seq<u8>, i: int) -> bool {
    &&& dim_sar_at(s, i)
    &&& forall|j: int| 0 <= j < i ==> !dim_sar_at(s, j)
}

pub open spec fn leftmost_dim_token_at(s: Seq<u8>, i: int) -> bool {
    &&& dim_token_at(s, i)
    &&& forall|j: int| 0 <= j < i ==> !dim_token_at(s, j)
}

/// What `parse_dimensions` may return for input bytes `s`.
pub open spec fn dimensions_outcome(s: Seq<u8>, r: Result<Option<(u32, u32)>, AppError>) -> bool {
    match r {
        Ok(o) => match o {
            None => forall|i: int| !dim_sar_at(s, i),
            Some(wh) => exists|i: int|
                {
                    &&& #[trigger] leftmost_dim_sar_at(s, i)
                    &&& wh.0 == dim_width(s, i)
                    &&& wh.1 == dim_height(s, i)
                },
        },
        Err(e) => {
            &&& e.kind == ErrorKind::ParseFailed
            &&& exists|i: int|
                {
                    &&& #[trigger] leftmost_dim_sar_at(s, i)
                    &&& (dim_width(s, i) > u32::MAX || dim_height(s, i) > u32::MAX)
                }
        },
    }
}

/// Parse the two digit runs of a dimension token at `i` as `u32`s.
fn dim_values(s: &[u8], i: usize, e1: usize, e2: usize) -> (r: Option<(u32, u32)>)
    requires
        dim_token_at(s@, i as int),
        e1 == dim_e1(s@, i as int),
        e2 == dim_e2(s@, i as int),
    ensures
        match r {
            Some(wh) => wh.0 == dim_width(s@, i as int) && wh.1 == dim_height(s@, i as int),
            None => dim_width(s@, i as int) > u32::MAX || dim_height(s@, i as int) > u32::MAX,
        },
{
    proof {
        lemma_digit_run_end_bounds(s@, i as int);
        lemma_digit_run_end_bounds(s@, e1 + 1);
    }
    let w64: u64 = match parse_u64_in_range(s, i, e1) {
        Some(v) => v,
        None => {
            return None;
        },
    };
    let h64: u64 = match parse_u64_in_range(s, e1 + 1, e2) {
        Some(v) => v,
        None => {
            return None;
        },
    };
    if w64 > u32::MAX as u64 || h64 > u32::MAX as u64 {
        return None;
    }
    Some((w64 as u32, h64 as u32))
}

/// Extract the video dimensions from decoder diagnostic text: the first
/// `WxH` token immediately followed by ` [SAR`, which singles the stream
/// resolution out from other numeric tokens. Absence yields `Ok(None)`.
pub fn parse_dimensions(text: &str) -> (r: Result<Option<(u32, u32)>, AppError>)
    ensures
        dimensions_outcome(text.spec_bytes(), r),
{
    let s: &[u8] = text.as_bytes();
    let lit: Vec<u8> = sar_lit_vec();
    let n: usize = s.len();
    let mut i: usize = 0;
    while i < n
        invariant
            s@ == text.spec_bytes(),
            lit@ == sar_lit(),
            n == s@.len(),
            0 <= i <= n,
            forall|j: int| 0 <= j < i ==> !dim_sar_at(s@, j),
        decreases n - i,
    {
        let e1: usize = find_digit_run_end(s, i);
        if e1 > i && e1 < n && s[e1] == 'x' as u8 {
            let e2: usize = find_digit_run_end(s, e1 + 1);
            if e2 > e1 + 1 && match_bytes_at(s, e2, lit.as_slice()) {
                proof {
                    assert(dim_sar_at(s@, i as int));
                    assert(leftmost_dim_sar_at(s@, i as int));
                }
                match dim_values(s, i, e1, e2) {
                    Some(wh) => {
                        return Ok(Some(wh));
                    },
                    None => {
                        return Err(
                            AppError::with_kind(ErrorKind::ParseFailed, "dimensions out of range"),
                        );
                    },
                }
            }
        }
        proof {
            assert(!dim_sar_at(s@, i as int));
        }
        i = i + 1;
    }
    proof {
        assert forall|j: int| !dim_sar_at(s@, j) by {
            if 0 <= j < n {
            } else if j == n {
                assert(digit_run_end(s@, j) == j);
            }
        }
    }
    Ok(None)
}

/// What `parse_dimensions_loose` may return for input bytes `s`: the first
/// bare `WxH` token, with an out-of-range value folded into absence.
pub open spec fn loose_dimensions_outcome(s: Seq<u8>, r: Option<(u32, u32)>) -> bool {
    match r {
        Some(wh) => exists|i: int|
            {
                &&& #[trigger] leftmost_dim_token_at(s, i)
                &&& wh.0 == dim_width(s, i)
                &&& wh.1 == dim_height(s, i)
            },
        None => (forall|i: int| !dim_token_at(s, i)) || exists|i: int|
            {
                &&& #[trigger] leftmost_dim_token_at(s, i)
                &&& (dim_width(s, i) > u32::MAX || dim_height(s, i) > u32::MAX)
            },
    }
}

/// Extract the first bare `WxH` token, as an identify invocation prints for
/// a still image. Both absence and an out-of-range value yield `None`.
pub fn parse_dimensions_loose(text: &str) -> (r: Option<(u32, u32)>)
    ensures
        loose_dimensions_outcome(text.spec_bytes(), r),
{
    let s: &[u8] = text.as_bytes();
    let n: usize = s.len();
    let mut i: usize = 0;
    while i < n
        invariant
            s@ == text.spec_bytes(),
            n == s@.len(),
            0 <= i <= n,
            forall|j: int| 0 <= j < i ==> !dim_token_at(s@, j),
        decreases n - i,
    {
        let e1: usize = find_digit_run_end(s, i);
        if e1 > i && e1 < n && s[e1] == 'x' as u8 {
            let e2: usize = find_digit_run_end(s, e1 + 1);
            if e2 > e1 + 1 {
                proof {
                    assert(dim_token_at(s@, i as int));
                    assert(leftmost_dim_token_at(s@, i as int));
                }
                return dim_values(s, i, e1, e2);
            }
        }
        proof {
            assert(!dim_token_at(s@, i as int));
        }
        i = i + 1;
    }
    proof {
        assert forall|j: int| !dim_token_at(s@, j) by {
            if 0 <= j < n {
            } else if j == n {
                assert(digit_run_end(s@, j) == j);
            }
        }
    }
    None
}

// ---------------------------------------------------------------------------
// Aggregated technical metadata for one media file.
// ---------------------------------------------------------------------------

/// Technical metadata for one file. Optional fields are populated only when
/// the media kind supports them; absence is a valid terminal state, not an
/// error.
#[derive(Debug)]
pub struct FileStats {
    pub size: u64,
    pub mime_type: String,
    pub created: u64,
    pub dimensions: Option<(u32, u32)>,
    pub duration: Option<Decimal>,
    pub frame_rate: Option<Decimal>,
}

/// Decide which metadata shape a content type has. Kinds outside image,
/// video and audio have no defined shape: that request is refused with
/// `UnsupportedMediaKind`.
pub fn media_kind_for_stats(mime: &str) -> (r: Result<crate::scan::FileType, AppError>)
    ensures
        match r {
            Ok(ft) => crate::scan::spec_categorize(mime@) == Some(ft),
            Err(e) => crate::scan::spec_categorize(mime@) is None && e.kind
                == ErrorKind::UnsupportedMediaKind,
        },
{
    match crate::scan::categorize_mime_type(mime) {
        Some(ft) => Ok(ft),
        None => Err(AppError::with_kind(ErrorKind::UnsupportedMediaKind, "Unsupported file type")),
    }
}

/// Assemble the stats of a still image. The dimensions come from an
/// identify invocation's output when that invocation succeeded; a failed
/// invocation or an unusable token yields absent dimensions, not an error.
pub fn stats_for_image(size: u64, mime_type: String, created: u64, identify_output: Option<&str>)
    -> (r: FileStats)
    ensures
        r.size == size,
        r.mime_type == mime_type,
        r.created == created,
        match identify_output {
            Some(t) => loose_dimensions_outcome(t.spec_bytes(), r.dimensions),
            None => r.dimensions is None,
        },
        r.duration is None,
        r.frame_rate is None,
{
    let dimensions: Option<(u32, u32)> = match identify_output {
        Some(t) => parse_dimensions_loose(t),
        None => None,
    };
    FileStats { size, mime_type, created, dimensions, duration: None, frame_rate: None }
}

/// Assemble the stats of a video from the decoder's probe diagnostics:
/// duration, frame rate and dimensions are each extracted independently,
/// and each may independently be absent.
pub fn stats_for_video(size: u64, mime_type: String, created: u64, probe: &str) -> (r: Result<
    FileStats,
    AppError,
>)
    ensures
        match r {
            Ok(st) => {
                &&& st.size == size
                &&& st.mime_type == mime_type
                &&& st.created == created
                &&& duration_outcome(probe.spec_bytes(), Ok(st.duration))
                &&& frame_rate_outcome(probe.spec_bytes(), Ok(st.frame_rate))
                &&& dimensions_outcome(probe.spec_bytes(), Ok(st.dimensions))
            },
            Err(e) => duration_outcome(probe.spec_bytes(), Err(e)) || frame_rate_outcome(
                probe.spec_bytes(),
                Err(e),
            ) || dimensions_outcome(probe.spec_bytes(), Err(e)),
        },
{
    let duration = match parse_duration(probe) {
        Ok(d) => d,
        Err(e) => {
            return Err(e);
        },
    };
    let frame_rate = match parse_frame_rate(probe) {
        Ok(f) => f,
        Err(e) => {
            return Err(e);
        },
    };
    let dimensions = match parse_dimensions(probe) {
        Ok(d) => d,
        Err(e) => {
            return Err(e);
        },
    };
    Ok(FileStats { size, mime_type, created, dimensions, duration, frame_rate })
}

/// Assemble the stats of an audio file from the decoder's probe
/// diagnostics: only a duration is extracted.
pub fn stats_for_audio(size: u64, mime_type: String, created: u64, probe: &str) -> (r: Result<
    FileStats,
    AppError,
>)
    ensures
        match r {
            Ok(st) => {
                &&& st.size == size
                &&& st.mime_type == mime_type
                &&& st.created == created
                &&& duration_outcome(probe.spec_bytes(), Ok(st.duration))
                &&& st.dimensions is None
                &&& st.frame_rate is None
            },
            Err(e) => duration_outcome(probe.spec_bytes(), Err(e)),
        },
{
    let duration = match parse_duration(probe) {
        Ok(d) => d,
        Err(e) => {
            return Err(e);
        },
    };
    Ok(FileStats { size, mime_type, created, dimensions: None, duration, frame_rate: None })
}

} // verus!
