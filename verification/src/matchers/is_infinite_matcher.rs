//! Matching floating point values which are infinite, read through the bits
//! of their IEEE 754 encoding.

use crate::matcher::{prefix_which, result_of, which, Describable, Matcher, MatcherResult};
use vstd::prelude::*;

verus! {

/// A single precision floating point value, held as the bits of its IEEE 754
/// binary32 encoding (what `f32::to_bits` returns).
#[derive(Debug, Clone, Copy, PartialEq, Eq, Structural)]
pub struct F32Bits(pub u32);

/// A double precision floating point value, held as the bits of its IEEE 754
/// binary64 encoding (what `f64::to_bits` returns).
#[derive(Debug, Clone, Copy, PartialEq, Eq, Structural)]
pub struct F64Bits(pub u64);

/// Whether the binary32 encoding `bits` stands for an infinity: all eight
/// exponent bits set and all 23 fraction bits clear, whatever the sign.
pub open spec fn infinite32(bits: u32) -> bool {
    (bits >> 23u32) & 0xffu32 == 0xffu32 && bits & 0x7f_ffffu32 == 0
}

/// Whether the binary64 encoding `bits` stands for an infinity: all eleven
/// exponent bits set and all 52 fraction bits clear, whatever the sign.
pub open spec fn infinite64(bits: u64) -> bool {
    (bits >> 52u64) & 0x7ffu64 == 0x7ffu64 && bits & 0xf_ffff_ffff_ffffu64 == 0
}

/// Matches a floating point value which is infinite, positive or negative.
pub fn is_infinite() -> (m: IsInfiniteMatcher) {
    IsInfiniteMatcher
}

/// A matcher of infinite floating point values.
pub struct IsInfiniteMatcher;

impl Describable for IsInfiniteMatcher {
    open spec fn spec_describe(&self, matcher_result: MatcherResult) -> Seq<char> {
        match matcher_result {
            MatcherResult::Match => "is infinite"@,
            MatcherResult::NoMatch => "is finite or NaN"@,
        }
    }

    fn describe(&self, matcher_result: MatcherResult) -> (description: String) {
        match matcher_result {
            MatcherResult::Match => String::from_str("is infinite"),
            MatcherResult::NoMatch => String::from_str("is finite or NaN"),
        }
    }
}

impl Matcher<F32Bits> for IsInfiniteMatcher {
    open spec fn spec_matches(&self, actual: F32Bits) -> bool {
        infinite32(actual.0)
    }

    open spec fn spec_explain(&self, actual: F32Bits) -> Seq<char> {
        which(self.spec_describe(result_of(self.spec_matches(actual))))
    }

    fn matches(&self, actual: &F32Bits) -> (r: MatcherResult) {
        let bits = actual.0;
        MatcherResult::from_bool((bits >> 23u32) & 0xffu32 == 0xffu32 && bits & 0x7f_ffffu32 == 0)
    }

    fn explain_match(&self, actual: &F32Bits) -> (explanation: String) {
        prefix_which(self.describe(self.matches(actual)))
    }
}

impl Matcher<F64Bits> for IsInfiniteMatcher {
    open spec fn spec_matches(&self, actual: F64Bits) -> bool {
        infinite64(actual.0)
    }

    open spec fn spec_explain(&self, actual: F64Bits) -> Seq<char> {
        which(self.spec_describe(result_of(self.spec_matches(actual))))
    }

    fn matches(&self, actual: &F64Bits) -> (r: MatcherResult) {
        let bits = actual.0;
        MatcherResult::from_bool(
            (bits >> 52u64) & 0x7ffu64 == 0x7ffu64 && bits & 0xf_ffff_ffff_ffffu64 == 0,
        )
    }

    fn explain_match(&self, actual: &F64Bits) -> (explanation: String) {
        prefix_which(self.describe(self.matches(actual)))
    }
}

/// The binary32 encodings of an infinity are exactly the two of positive and
/// negative infinity: `is_infinite` matches `f32::INFINITY` and
/// `f32::NEG_INFINITY` and nothing else, so neither NaN nor any finite value.
pub proof fn lemma_infinite32_is_plus_or_minus_infinity(bits: u32)
    ensures
        infinite32(bits) <==> (bits == 0x7f80_0000u32 || bits == 0xff80_0000u32),
{
    assert(((bits >> 23u32) & 0xffu32 == 0xffu32 && bits & 0x7f_ffffu32 == 0) <==> (bits
        == 0x7f80_0000u32 || bits == 0xff80_0000u32)) by (bit_vector);
}

/// The binary64 encodings of an infinity are exactly the two of positive and
/// negative infinity: `is_infinite` matches `f64::INFINITY` and
/// `f64::NEG_INFINITY` and nothing else, so neither NaN nor any finite value.
pub proof fn lemma_infinite64_is_plus_or_minus_infinity(bits: u64)
    ensures
        infinite64(bits) <==> (bits == 0x7ff0_0000_0000_0000u64 || bits
            == 0xfff0_0000_0000_0000u64),
{
    assert(((bits >> 52u64) & 0x7ffu64 == 0x7ffu64 && bits & 0xf_ffff_ffff_ffffu64 == 0) <==> (bits
        == 0x7ff0_0000_0000_0000u64 || bits == 0xfff0_0000_0000_0000u64)) by (bit_vector);
}

} // verus!
