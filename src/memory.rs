use vstd::prelude::*;

verus! {

/// Bytes in one gibibyte (1024 * 1024 * 1024).
pub const BYTES_PER_GIB: u64 = 1073741824;

/// `g` is `bytes / 2^30` rounded to the nearest integer, halves away from zero.
pub open spec fn is_rounded_gib(bytes: nat, g: nat) -> bool {
    g * 1073741824 <= bytes + 536870912 < (g + 1) * 1073741824
}

/// Converts a byte count to gibibytes (binary units), rounded to the nearest
/// whole number with halves rounded up.
pub fn rounded_gib(bytes: u64) -> (g: u64)
    ensures
        is_rounded_gib(bytes as nat, g as nat),
{
    let whole = bytes / BYTES_PER_GIB;
    let rest = bytes % BYTES_PER_GIB;
    let g = if rest >= BYTES_PER_GIB / 2 { whole + 1 } else { whole };
    assert(is_rounded_gib(bytes as nat, g as nat)) by (nonlinear_arith)
        requires
            whole == bytes / 1073741824,
            rest == bytes % 1073741824,
            g == (if rest >= 536870912 { whole + 1 } else { whole as int }),
    ;
    g
}

} // verus!
