use vstd::prelude::*;
use vstd::string::StringExecFns;

use crate::digits::{
    dec_digits, dec_digits_width, digit_str, exec_pow10, lemma_pow10_le_19, lemma_pow10_mono_ge,
    pow10, u64_to_string, u64_to_string_width,
};

verus! {

/// An exact nonnegative decimal number: the value `mantissa / 10^scale`.
///
/// Durations, frame rates and timestamps are carried in this form so that
/// every digit the external tool reported is kept exactly.
#[derive(Clone, Copy, PartialEq, Eq, Structural, Debug)]
pub struct Decimal {
    pub mantissa: u64,
    pub scale: u32,
}

/// The text rendering of `mantissa / 10^scale`: the integer part without
/// leading zeros, then, for a nonzero scale, a point and exactly `scale`
/// fraction digits.
pub open spec fn spec_decimal_text(mantissa: int, scale: nat) -> Seq<char> {
    if scale == 0 {
        dec_digits(mantissa)
    } else {
        dec_digits(mantissa / pow10(scale)) + seq!['.'] + dec_digits_width(mantissa, scale)
    }
}

impl Decimal {
    /// Render the number, e.g. as an argument for an external tool.
    pub fn to_text(&self) -> (r: String)
        ensures
            r@ == spec_decimal_text(self.mantissa as int, self.scale as nat),
    {
        if self.scale == 0 {
            u64_to_string(self.mantissa)
        } else if self.scale <= 19 {
            let p: u64 = exec_pow10(self.scale);
            proof {
                crate::digits::lemma_pow10_pos(self.scale as nat);
            }
            let mut s = u64_to_string(self.mantissa / p);
            s.append(".");
            let frac = u64_to_string_width(self.mantissa, self.scale);
            s.append(frac.as_str());
            proof {
                reveal_strlit(".");
                assert(s@ =~= spec_decimal_text(self.mantissa as int, self.scale as nat));
            }
            s
        } else {
            // 10^scale exceeds the mantissa, so the integer part is zero.
            proof {
                lemma_pow10_le_19();
                lemma_pow10_mono_ge(1, 20, self.scale as nat);
                assert(self.mantissa < pow10(self.scale as nat));
                vstd::arithmetic::div_mod::lemma_basic_div(
                    self.mantissa as int,
                    pow10(self.scale as nat),
                );
                assert(self.mantissa as int / pow10(self.scale as nat) == 0);
            }
            let mut s = digit_str(0).to_owned();
            s.append(".");
            let frac = u64_to_string_width(self.mantissa, self.scale);
            s.append(frac.as_str());
            proof {
                reveal_strlit(".");
                assert(s@ =~= spec_decimal_text(self.mantissa as int, self.scale as nat));
            }
            s
        }
    }
}

} // verus!
