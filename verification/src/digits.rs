use vstd::prelude::*;
use vstd::string::StrSliceExecFns;
use vstd::string::StringExecFns;

verus! {

/// `b` is the ASCII code of a decimal digit.
pub open spec fn is_digit(b: u8) -> bool {
    48 <= b <= 57
}

/// Numeric value of an ASCII digit byte.
pub open spec fn digit_val(b: u8) -> int {
    b - 48
}

/// Value of a sequence of ASCII digit bytes read as a decimal number.
pub open spec fn digits_val(s: Seq<u8>) -> int
    decreases s.len(),
{
    if s.len() == 0 {
        0
    } else {
        digits_val(s.drop_last()) * 10 + digit_val(s.last())
    }
}

/// Every byte of `s` in index range `[start, end)` is an ASCII digit.
pub open spec fn digits_in_range(s: Seq<u8>, start: int, end: int) -> bool {
    forall|j: int| start <= j < end ==> is_digit(s[j])
}

/// Index just past the maximal run of ASCII digits that starts at `i`.
pub open spec fn digit_run_end(s: Seq<u8>, i: int) -> int
    decreases s.len() - i when i <= s.len()
{
    if i < s.len() && is_digit(s[i]) {
        digit_run_end(s, i + 1)
    } else {
        i
    }
}

pub proof fn lemma_digit_run_end_bounds(s: Seq<u8>, i: int)
    requires
        0 <= i <= s.len(),
    ensures
        i <= digit_run_end(s, i) <= s.len(),
        digits_in_range(s, i, digit_run_end(s, i)),
        digit_run_end(s, i) < s.len() ==> !is_digit(s[digit_run_end(s, i)]),
    decreases s.len() - i,
{
    if i < s.len() && is_digit(s[i]) {
        lemma_digit_run_end_bounds(s, i + 1);
    }
}

pub proof fn lemma_digits_val_nonneg(s: Seq<u8>)
    requires
        digits_in_range(s, 0, s.len() as int),
    ensures
        digits_val(s) >= 0,
    decreases s.len(),
{
    if s.len() > 0 {
        lemma_digits_val_nonneg(s.drop_last());
    }
}

/// Reading more digits never shrinks the value: the value of a prefix is a
/// lower bound for the value of the whole run.
pub proof fn lemma_digits_val_prefix_le(s: Seq<u8>, k: int)
    requires
        digits_in_range(s, 0, s.len() as int),
        0 <= k <= s.len(),
    ensures
        digits_val(s.subrange(0, k)) <= digits_val(s),
    decreases s.len() - k,
{
    if k < s.len() {
        let t = s.subrange(0, k + 1);
        assert(t.drop_last() =~= s.subrange(0, k));
        assert(forall|j: int| 0 <= j < t.len() ==> is_digit(t[j]));
        lemma_digits_val_nonneg(s.subrange(0, k));
        assert(digits_val(t) == digits_val(s.subrange(0, k)) * 10 + digit_val(s[k]));
        lemma_digits_val_prefix_le(s, k + 1);
        assert(s.subrange(0, s.len() as int) =~= s);
    } else {
        assert(s.subrange(0, k) =~= s);
    }
}

/// Exec counterpart of `is_digit`.
pub fn is_digit_byte(b: u8) -> (r: bool)
    ensures
        r == is_digit(b),
{
    48 <= b && b <= 57
}

/// Walk to the end of the maximal digit run starting at `i`.
pub fn find_digit_run_end(s: &[u8], i: usize) -> (r: usize)
    requires
        i <= s@.len(),
    ensures
        r == digit_run_end(s@, i as int),
        i <= r <= s@.len(),
{
    let n: usize = s.len();
    let mut j: usize = i;
    while j < n && is_digit_byte(s[j])
        invariant
            i <= j <= n == s@.len(),
            digit_run_end(s@, i as int) == digit_run_end(s@, j as int),
        decreases n - j,
    {
        j = j + 1;
    }
    proof {
        lemma_digit_run_end_bounds(s@, i as int);
    }
    j
}

/// Parse the digit bytes of `s` in `[start, end)` as a `u64`, reporting
/// `None` exactly when the value does not fit.
pub fn parse_u64_in_range(s: &[u8], start: usize, end: usize) -> (r: Option<u64>)
    requires
        start <= end <= s@.len(),
        digits_in_range(s@, start as int, end as int),
    ensures
        ({
            let v = digits_val(s@.subrange(start as int, end as int));
            match r {
                Some(u) => u == v,
                None => v > u64::MAX,
            }
        }),
{
    let mut acc: u64 = 0;
    let mut k: usize = start;
    while k < end
        invariant
            start <= k <= end <= s@.len(),
            digits_in_range(s@, start as int, end as int),
            acc == digits_val(s@.subrange(start as int, k as int)),
        decreases end - k,
    {
        let d: u64 = (s[k] - 48) as u64;
        proof {
            assert(s@.subrange(start as int, k + 1).drop_last() =~= s@.subrange(
                start as int,
                k as int,
            ));
            assert(s@.subrange(start as int, k + 1).last() == s@[k as int]);
        }
        if acc > (u64::MAX - d) / 10 {
            proof {
                let t = s@.subrange(start as int, end as int);
                let p = s@.subrange(start as int, k + 1);
                assert(acc * 10 + d > u64::MAX) by (nonlinear_arith)
                    requires
                        acc > (u64::MAX - d) / 10,
                        d <= 9,
                ;
                assert(digits_val(p) == acc * 10 + d);
                assert(p =~= t.subrange(0, k + 1 - start));
                assert(forall|j: int| 0 <= j < t.len() ==> is_digit(t[j]));
                lemma_digits_val_prefix_le(t, k + 1 - start);
            }
            return None;
        }
        proof {
            assert(acc * 10 + d <= u64::MAX) by (nonlinear_arith)
                requires
                    acc <= (u64::MAX - d) / 10,
                    0 <= d <= 9,
                    acc >= 0,
            ;
        }
        acc = acc * 10 + d;
        k = k + 1;
    }
    Some(acc)
}

/// `10^e`.
pub open spec fn pow10(e: nat) -> int
    decreases e,
{
    if e == 0 {
        1
    } else {
        10 * pow10((e - 1) as nat)
    }
}

pub proof fn lemma_pow10_pos(e: nat)
    ensures
        pow10(e) >= 1,
    decreases e,
{
    if e > 0 {
        lemma_pow10_pos((e - 1) as nat);
    }
}

/// Multiply `x` by `10^e`, reporting `None` exactly when the product does not
/// fit in a `u64`.
pub fn checked_mul_pow10(x: u64, e: u32) -> (r: Option<u64>)
    ensures
        ({
            let v = x * pow10(e as nat);
            match r {
                Some(u) => u == v,
                None => v > u64::MAX,
            }
        }),
{
    let mut acc: u64 = x;
    let mut j: u32 = 0;
    while j < e
        invariant
            0 <= j <= e,
            acc == x * pow10(j as nat),
            acc <= u64::MAX,
        decreases e - j,
    {
        proof {
            lemma_pow10_pos(j as nat);
        }
        if acc > u64::MAX / 10 {
            proof {
                assert(acc * 10 > u64::MAX) by (nonlinear_arith)
                    requires
                        acc > u64::MAX / 10,
                ;
                assert(x * pow10((j + 1) as nat) == acc * 10) by (nonlinear_arith)
                    requires
                        acc == x * pow10(j as nat),
                        pow10((j + 1) as nat) == 10 * pow10(j as nat),
                ;
                lemma_pow10_mono_ge(x as int, (j + 1) as nat, e as nat);
            }
            return None;
        }
        proof {
            assert(acc * 10 <= u64::MAX) by (nonlinear_arith)
                requires
                    acc <= u64::MAX / 10,
                    acc >= 0,
            ;
            assert(x * pow10((j + 1) as nat) == acc * 10) by (nonlinear_arith)
                requires
                    acc == x * pow10(j as nat),
                    pow10((j + 1) as nat) == 10 * pow10(j as nat),
            ;
        }
        acc = acc * 10;
        j = j + 1;
    }
    Some(acc)
}

/// `b` is an ASCII whitespace byte.
pub open spec fn is_space(b: u8) -> bool {
    b == 32 || b == 9 || b == 10 || b == 11 || b == 12 || b == 13
}

/// Index just past the maximal run of whitespace that starts at `i`.
pub open spec fn space_run_end(s: Seq<u8>, i: int) -> int
    decreases s.len() - i when i <= s.len()
{
    if i < s.len() && is_space(s[i]) {
        space_run_end(s, i + 1)
    } else {
        i
    }
}

pub proof fn lemma_space_run_end_bounds(s: Seq<u8>, i: int)
    requires
        0 <= i <= s.len(),
    ensures
        i <= space_run_end(s, i) <= s.len(),
        space_run_end(s, i) < s.len() ==> !is_space(s[space_run_end(s, i)]),
    decreases s.len() - i,
{
    if i < s.len() && is_space(s[i]) {
        lemma_space_run_end_bounds(s, i + 1);
    }
}

/// Index of the first byte of the maximal run of trailing whitespace that
/// ends just before `j`.
pub open spec fn space_run_start(s: Seq<u8>, j: int) -> int
    decreases j when j >= 0
{
    if 0 < j <= s.len() && is_space(s[j - 1]) {
        space_run_start(s, j - 1)
    } else {
        j
    }
}

pub proof fn lemma_space_run_start_bounds(s: Seq<u8>, j: int)
    requires
        0 <= j <= s.len(),
    ensures
        0 <= space_run_start(s, j) <= j,
        space_run_start(s, j) > 0 ==> !is_space(s[space_run_start(s, j) - 1]),
    decreases j,
{
    if 0 < j && is_space(s[j - 1]) {
        lemma_space_run_start_bounds(s, j - 1);
    }
}

/// The bounds of `s` with leading and trailing ASCII whitespace removed:
/// the pair `(start, end)`, with `start == end` for all-whitespace input.
pub open spec fn trimmed_bounds(s: Seq<u8>) -> (int, int) {
    let a = space_run_end(s, 0);
    if a == s.len() {
        (a, a)
    } else {
        (a, space_run_start(s, s.len() as int))
    }
}

/// `s` with leading and trailing ASCII whitespace removed.
pub open spec fn trimmed(s: Seq<u8>) -> Seq<u8> {
    s.subrange(trimmed_bounds(s).0, trimmed_bounds(s).1)
}

pub proof fn lemma_trimmed_bounds(s: Seq<u8>)
    ensures
        0 <= trimmed_bounds(s).0 <= trimmed_bounds(s).1 <= s.len(),
{
    lemma_space_run_end_bounds(s, 0);
    let a = space_run_end(s, 0);
    if a < s.len() {
        lemma_space_run_start_bounds(s, s.len() as int);
        let b = space_run_start(s, s.len() as int);
        if b <= a {
            // s[a] is not whitespace, so the trailing run cannot reach past it.
            lemma_space_run_start_gt(s, s.len() as int, a);
        }
    }
}

/// If `s[k]` is not whitespace and `k < j`, the trailing whitespace run that
/// ends before `j` starts after `k`.
proof fn lemma_space_run_start_gt(s: Seq<u8>, j: int, k: int)
    requires
        0 <= k < j <= s.len(),
        !is_space(s[k]),
    ensures
        space_run_start(s, j) > k,
    decreases j,
{
    if is_space(s[j - 1]) {
        lemma_space_run_start_gt(s, j - 1, k);
    }
}

/// Exec counterpart of `is_space`.
pub fn is_space_byte(b: u8) -> (r: bool)
    ensures
        r == is_space(b),
{
    b == 32 || b == 9 || b == 10 || b == 11 || b == 12 || b == 13
}

/// Compute the bounds of `s` without leading and trailing whitespace.
pub fn find_trimmed_bounds(s: &[u8]) -> (r: (usize, usize))
    ensures
        (r.0 as int, r.1 as int) == trimmed_bounds(s@),
        r.0 <= r.1 <= s@.len(),
{
    let n: usize = s.len();
    let mut a: usize = 0;
    while a < n && is_space_byte(s[a])
        invariant
            0 <= a <= n == s@.len(),
            space_run_end(s@, 0) == space_run_end(s@, a as int),
        decreases n - a,
    {
        a = a + 1;
    }
    if a == n {
        proof {
            lemma_trimmed_bounds(s@);
        }
        return (a, a);
    }
    let mut b: usize = n;
    while b > 0 && is_space_byte(s[b - 1])
        invariant
            0 <= b <= n == s@.len(),
            space_run_start(s@, n as int) == space_run_start(s@, b as int),
        decreases b,
    {
        b = b - 1;
    }
    proof {
        lemma_trimmed_bounds(s@);
    }
    (a, b)
}

/// The bytes `lit` occur in `s` starting at index `i`.
pub open spec fn bytes_at(s: Seq<u8>, i: int, lit: Seq<u8>) -> bool {
    0 <= i && i + lit.len() <= s.len() && s.subrange(i, i + lit.len() as int) == lit
}

/// Exec counterpart of `bytes_at`.
pub fn match_bytes_at(s: &[u8], i: usize, lit: &[u8]) -> (r: bool)
    requires
        i <= s@.len(),
    ensures
        r == bytes_at(s@, i as int, lit@),
{
    let m: usize = lit.len();
    let n: usize = s.len();
    if n - i < m {
        return false;
    }
    let mut k: usize = 0;
    while k < m
        invariant
            0 <= k <= m == lit@.len(),
            n == s@.len(),
            i + m <= n,
            forall|j: int| 0 <= j < k ==> s@[i + j] == lit@[j],
        decreases m - k,
    {
        if s[i + k] != lit[k] {
            proof {
                assert(s@.subrange(i as int, i + lit@.len() as int)[k as int] != lit@[k as int]);
            }
            return false;
        }
        k = k + 1;
    }
    proof {
        assert(s@.subrange(i as int, i + lit@.len() as int) =~= lit@);
    }
    true
}

/// Number of occurrences of `x` in `s` within `[lo, hi)`.
pub open spec fn count_byte_range(s: Seq<u8>, lo: int, hi: int, x: u8) -> int
    decreases hi - lo when lo <= hi
{
    if lo >= hi {
        0
    } else {
        (if s[hi - 1] == x {
            1int
        } else {
            0int
        }) + count_byte_range(s, lo, hi - 1, x)
    }
}

/// The characters `lit` are a prefix of `s`.
pub open spec fn chars_prefix(s: Seq<char>, lit: Seq<char>) -> bool {
    lit.len() <= s.len() && s.subrange(0, lit.len() as int) == lit
}

/// Exec counterpart of `chars_prefix`.
pub fn match_chars_prefix(s: &str, lit: &[char]) -> (r: bool)
    ensures
        r == chars_prefix(s@, lit@),
{
    let m: usize = lit.len();
    let n: usize = s.unicode_len();
    if n < m {
        return false;
    }
    let mut k: usize = 0;
    while k < m
        invariant
            0 <= k <= m == lit@.len(),
            m <= n == s@.len(),
            forall|j: int| 0 <= j < k ==> s@[j] == lit@[j],
        decreases m - k,
    {
        if s.get_char(k) != lit[k] {
            proof {
                assert(s@.subrange(0, lit@.len() as int)[k as int] != lit@[k as int]);
            }
            return false;
        }
        k = k + 1;
    }
    proof {
        assert(s@.subrange(0, lit@.len() as int) =~= lit@);
    }
    true
}

/// The decimal digit character for a value in `0 ..= 9`.
pub open spec fn digit_char(d: int) -> char {
    if d == 0 {
        '0'
    } else if d == 1 {
        '1'
    } else if d == 2 {
        '2'
    } else if d == 3 {
        '3'
    } else if d == 4 {
        '4'
    } else if d == 5 {
        '5'
    } else if d == 6 {
        '6'
    } else if d == 7 {
        '7'
    } else if d == 8 {
        '8'
    } else {
        '9'
    }
}

/// The usual decimal rendering of a nonnegative integer, without leading
/// zeros (except for zero itself).
pub open spec fn dec_digits(n: int) -> Seq<char>
    decreases n when n >= 0
{
    if n < 10 {
        seq![digit_char(n)]
    } else {
        dec_digits(n / 10).push(digit_char(n % 10))
    }
}

/// The last `w` decimal digits of `n`, zero-padded to exactly width `w`.
pub open spec fn dec_digits_width(n: int, w: nat) -> Seq<char>
    decreases w,
{
    if w == 0 {
        Seq::<char>::empty()
    } else {
        dec_digits_width(n / 10, (w - 1) as nat).push(digit_char(n % 10))
    }
}

pub proof fn lemma_dec_digits_len(n: int)
    requires
        n >= 0,
    ensures
        dec_digits(n).len() >= 1,
        n >= 10 ==> dec_digits(n).len() >= 2,
    decreases n,
{
    if n >= 10 {
        lemma_dec_digits_len(n / 10);
    }
}

/// Distinct digits have distinct characters.
pub proof fn lemma_digit_char_injective(d1: int, d2: int)
    requires
        0 <= d1 < 10,
        0 <= d2 < 10,
        digit_char(d1) == digit_char(d2),
    ensures
        d1 == d2,
{
}

/// Distinct numbers have distinct decimal renderings.
pub proof fn lemma_dec_digits_injective(a: int, b: int)
    requires
        a >= 0,
        b >= 0,
        dec_digits(a) == dec_digits(b),
    ensures
        a == b,
    decreases a,
{
    if a < 10 && b < 10 {
        assert(dec_digits(a) == seq![digit_char(a)]);
        assert(dec_digits(b) == seq![digit_char(b)]);
        assert(seq![digit_char(a)][0] == digit_char(a));
        assert(seq![digit_char(b)][0] == digit_char(b));
        lemma_digit_char_injective(a, b);
    } else if a < 10 {
        lemma_dec_digits_len(b);
        assert(dec_digits(a).len() == 1);
    } else if b < 10 {
        lemma_dec_digits_len(a);
        assert(dec_digits(b).len() == 1);
    } else {
        assert(dec_digits(a) == dec_digits(a / 10).push(digit_char(a % 10)));
        assert(dec_digits(b) == dec_digits(b / 10).push(digit_char(b % 10)));
        assert(dec_digits(a).last() == digit_char(a % 10));
        assert(dec_digits(b).last() == digit_char(b % 10));
        lemma_digit_char_injective(a % 10, b % 10);
        assert(dec_digits(a).drop_last() =~= dec_digits(a / 10));
        assert(dec_digits(b).drop_last() =~= dec_digits(b / 10));
        lemma_dec_digits_injective(a / 10, b / 10);
        assert(a == (a / 10) * 10 + a % 10);
        assert(b == (b / 10) * 10 + b % 10);
    }
}

/// The one-character string for a single decimal digit.
pub fn digit_str(d: u64) -> (r: &'static str)
    requires
        d < 10,
    ensures
        r@ == seq![digit_char(d as int)],
{
    proof {
        reveal_strlit("0");
        reveal_strlit("1");
        reveal_strlit("2");
        reveal_strlit("3");
        reveal_strlit("4");
        reveal_strlit("5");
        reveal_strlit("6");
        reveal_strlit("7");
        reveal_strlit("8");
        reveal_strlit("9");
    }
    if d == 0 {
        "0"
    } else if d == 1 {
        "1"
    } else if d == 2 {
        "2"
    } else if d == 3 {
        "3"
    } else if d == 4 {
        "4"
    } else if d == 5 {
        "5"
    } else if d == 6 {
        "6"
    } else if d == 7 {
        "7"
    } else if d == 8 {
        "8"
    } else {
        "9"
    }
}

/// Render `n` in decimal.
pub fn u64_to_string(n: u64) -> (r: String)
    ensures
        r@ == dec_digits(n as int),
    decreases n,
{
    if n < 10 {
        digit_str(n).to_owned()
    } else {
        let mut s = u64_to_string(n / 10);
        let d = digit_str(n % 10);
        s.append(d);
        proof {
            assert(s@ =~= dec_digits(n as int));
        }
        s
    }
}

/// Render the last `w` decimal digits of `n`, zero-padded to width `w`.
pub fn u64_to_string_width(n: u64, w: u32) -> (r: String)
    ensures
        r@ == dec_digits_width(n as int, w as nat),
    decreases w,
{
    if w == 0 {
        String::new()
    } else {
        let mut s = u64_to_string_width(n / 10, w - 1);
        let d = digit_str(n % 10);
        s.append(d);
        proof {
            assert(s@ =~= dec_digits_width(n as int, w as nat));
        }
        s
    }
}

/// `10^e` as a `u64`, for exponents where it fits.
pub fn exec_pow10(e: u32) -> (r: u64)
    requires
        e <= 19,
    ensures
        r == pow10(e as nat),
{
    proof {
        lemma_pow10_le_19();
    }
    let mut acc: u64 = 1;
    let mut j: u32 = 0;
    while j < e
        invariant
            0 <= j <= e <= 19,
            acc == pow10(j as nat),
        decreases e - j,
    {
        proof {
            lemma_pow10_le_19();
            lemma_pow10_mono_ge(1, (j + 1) as nat, 19);
        }
        acc = acc * 10;
        j = j + 1;
    }
    acc
}

/// Concrete bound used to show that `10^e` fits in a `u64` for `e <= 19`.
pub proof fn lemma_pow10_le_19()
    ensures
        pow10(19) == 10000000000000000000,
        pow10(20) == 100000000000000000000,
{
    reveal_with_fuel(pow10, 21);
}

/// Once `x * 10^j` exceeds some bound, so does `x * 10^e` for any `e >= j`.
pub proof fn lemma_pow10_mono_ge(x: int, j: nat, e: nat)
    requires
        x >= 0,
        j <= e,
    ensures
        x * pow10(j) <= x * pow10(e),
    decreases e - j,
{
    if j < e {
        lemma_pow10_mono_ge(x, j, (e - 1) as nat);
        lemma_pow10_pos((e - 1) as nat);
        assert(x * pow10((e - 1) as nat) <= x * pow10(e)) by (nonlinear_arith)
            requires
                x >= 0,
                pow10(e) == 10 * pow10((e - 1) as nat),
                pow10((e - 1) as nat) >= 1,
        ;
    }
}

} // verus!
