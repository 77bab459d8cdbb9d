//! Numbers as bit patterns: what can be read from an IEEE-754 binary64 value
//! without arithmetic on it.

use vstd::prelude::*;

verus! {

/// The whole number from 1 up to, but not including, 2 to the 53rd that the
/// bit pattern `bits` denotes, if it denotes one.
///
/// The pattern holds a sign in its highest bit, then eleven bits of exponent
/// and 52 bits of fraction. Its value is the fraction with a leading one bit
/// before it, times two to the exponent less 1075.
pub open spec fn whole_of(bits: u64) -> Option<u64> {
    let sign = bits >> 63;
    let exponent = (bits >> 52) & 0x7ff;
    let fraction = (bits & 0xf_ffff_ffff_ffff) | 0x10_0000_0000_0000;
    if sign != 0 || exponent < 1023 || exponent > 1075 {
        None
    } else {
        let down = (1075 - exponent) as u64;
        if (fraction >> down) << down != fraction {
            None
        } else {
            Some(fraction >> down)
        }
    }
}

/// Reads a whole number from 1 up from the bit pattern of a number.
pub fn whole(bits: u64) -> (r: Option<u64>)
    ensures
        r == whole_of(bits),
{
    let sign = bits >> 63;
    let exponent = (bits >> 52) & 0x7ff;
    let fraction = (bits & 0xf_ffff_ffff_ffff) | 0x10_0000_0000_0000;
    if sign != 0 || exponent < 1023 || exponent > 1075 {
        None
    } else {
        let down: u64 = 1075 - exponent;
        if (fraction >> down) << down != fraction {
            None
        } else {
            Some(fraction >> down)
        }
    }
}

} // verus!
