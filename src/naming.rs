//! Names for output files.

use vstd::prelude::*;

verus! {

/// A four-digit number drawn from a clock reading in seconds: the low 16
/// bits of `seconds`, brought into `1000..=9999`.
pub fn generate_random_4_digits(seconds: u64) -> (r: u16)
    ensures
        r as int == seconds as int % 65536 % 9000 + 1000,
        1000 <= r <= 9999,
{
    let seed = (seconds % 65536) as u16;
    seed % 9000 + 1000
}

} // verus!
