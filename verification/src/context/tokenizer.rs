//! Token estimates for budgeting, without a model tokenizer: about four
//! characters per token, and never zero for non-empty text.
use vstd::prelude::*;

verus! {

/// Estimated tokens for a text of `n` characters. The count is taken as a
/// 32-bit value (wrapping beyond `u32::MAX` characters), then divided by
/// four rounding up, with a floor of one for non-empty text.
pub open spec fn estimate_spec(n: nat) -> u32 {
    if n == 0 {
        0
    } else {
        let c = n % 0x1_0000_0000;
        let q = (c / 4 + if c % 4 == 0 { 0nat } else { 1nat }) as u32;
        if q == 0 {
            1
        } else {
            q
        }
    }
}

/// Rough token count for budgeting. Empty text costs nothing.
pub fn estimate(text: &str) -> (r: u32)
    ensures
        r == estimate_spec(text@.len()),
{
    let n = text.unicode_len();
    if n == 0 {
        return 0;
    }
    let c: u32 = ((n as u64) % 0x1_0000_0000u64) as u32;
    let q: u32 = c / 4 + if c % 4 == 0 {
        0
    } else {
        1
    };
    if q == 0 {
        1
    } else {
        q
    }
}

/// Up to `u32::MAX` characters, the estimate is the character count over
/// four, rounded up, and at least one for non-empty text.
pub proof fn law_estimate_is_quarter_rounded_up(n: nat)
    requires
        0 < n <= 0xffff_ffff,
    ensures
        estimate_spec(n) >= 1,
        4 * (estimate_spec(n) as int) >= n,
        4 * (estimate_spec(n) as int) < n + 4,
{
}

} // verus!
