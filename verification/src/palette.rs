//! The palette mapper: a fixed 16-entry color table indexed by the iteration
//! count modulo 16, with a defensive black for the unreachable out-of-table
//! case.

use vstd::prelude::*;
use vstd::arithmetic::div_mod::{lemma_mod_add_multiples_vanish, lemma_mod_bound};

verus! {

/// One displayed color, as an RGB triple.
#[derive(Clone, Copy, Debug, PartialEq, Eq, Structural)]
pub struct Rgb {
    pub r: u8,
    pub g: u8,
    pub b: u8,
}

/// The fixed color table: entries 0 through 15, black outside.
pub open spec fn palette_entry(i: int) -> Rgb {
    if i == 0 { Rgb { r: 66, g: 30, b: 15 } }
    else if i == 1 { Rgb { r: 25, g: 7, b: 26 } }
    else if i == 2 { Rgb { r: 9, g: 1, b: 47 } }
    else if i == 3 { Rgb { r: 4, g: 4, b: 73 } }
    else if i == 4 { Rgb { r: 0, g: 7, b: 100 } }
    else if i == 5 { Rgb { r: 12, g: 44, b: 138 } }
    else if i == 6 { Rgb { r: 24, g: 82, b: 177 } }
    else if i == 7 { Rgb { r: 57, g: 125, b: 209 } }
    else if i == 8 { Rgb { r: 134, g: 181, b: 229 } }
    else if i == 9 { Rgb { r: 211, g: 236, b: 248 } }
    else if i == 10 { Rgb { r: 241, g: 233, b: 191 } }
    else if i == 11 { Rgb { r: 248, g: 201, b: 95 } }
    else if i == 12 { Rgb { r: 255, g: 170, b: 0 } }
    else if i == 13 { Rgb { r: 204, g: 128, b: 0 } }
    else if i == 14 { Rgb { r: 153, g: 87, b: 0 } }
    else if i == 15 { Rgb { r: 106, g: 52, b: 3 } }
    else { Rgb { r: 0, g: 0, b: 0 } }
}

/// The color assigned to an iteration count: the table entry at the count
/// modulo 16.
pub open spec fn spec_colorize(n: int) -> Rgb {
    palette_entry(n % 16)
}

/// A color that the mapper can produce: one of the 16 table entries.
pub open spec fn is_palette_color(c: Rgb) -> bool {
    exists|i: int| 0 <= i < 16 && c == palette_entry(i)
}

/// The palette mapping is periodic with period 16.
pub proof fn lemma_colorize_periodic(n: int)
    requires
        0 <= n,
    ensures
        spec_colorize(n + 16) == spec_colorize(n),
{
    lemma_mod_add_multiples_vanish(n, 16);
}

/// Every count maps to one of the 16 table colors.
pub proof fn lemma_colorize_in_palette(n: int)
    requires
        0 <= n,
    ensures
        is_palette_color(spec_colorize(n)),
{
    lemma_mod_bound(n, 16);
    assert(0 <= n % 16 < 16);
    assert(spec_colorize(n) == palette_entry(n % 16));
}

/// Maps an iteration count to its palette color, exactly as `spec_colorize`
/// states.
pub fn colorize(n: u32) -> (c: Rgb)
    ensures
        c == spec_colorize(n as int),
{
    match n % 16 {
        0 => Rgb { r: 66, g: 30, b: 15 },
        1 => Rgb { r: 25, g: 7, b: 26 },
        2 => Rgb { r: 9, g: 1, b: 47 },
        3 => Rgb { r: 4, g: 4, b: 73 },
        4 => Rgb { r: 0, g: 7, b: 100 },
        5 => Rgb { r: 12, g: 44, b: 138 },
        6 => Rgb { r: 24, g: 82, b: 177 },
        7 => Rgb { r: 57, g: 125, b: 209 },
        8 => Rgb { r: 134, g: 181, b: 229 },
        9 => Rgb { r: 211, g: 236, b: 248 },
        10 => Rgb { r: 241, g: 233, b: 191 },
        11 => Rgb { r: 248, g: 201, b: 95 },
        12 => Rgb { r: 255, g: 170, b: 0 },
        13 => Rgb { r: 204, g: 128, b: 0 },
        14 => Rgb { r: 153, g: 87, b: 0 },
        15 => Rgb { r: 106, g: 52, b: 3 },
        _ => Rgb { r: 0, g: 0, b: 0 },
    }
}

} // verus!
