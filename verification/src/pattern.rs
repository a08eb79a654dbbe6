//! The fixed black/white pattern of the twelve pitch classes.

use vstd::prelude::*;

verus! {

/// Black (`true`) or white (`false`) for each pitch class, counted from A.
pub const KEY_PATTERN: [bool; 12] = [
    false, true, false, false, true, false, true, false, false, true, false, true,
];

/// Whether pitch class `pc` is a black key.
pub open spec fn black_class(pc: int) -> bool {
    pc == 1 || pc == 4 || pc == 6 || pc == 9 || pc == 11
}

/// Whether key `key` of a keyboard whose lowest key has absolute number
/// `start_key` is black.
pub open spec fn key_is_black(start_key: int, key: int) -> bool {
    black_class((start_key + key) % 12)
}

/// Looks a pitch class up in [`KEY_PATTERN`].
pub fn is_black_class(pc: usize) -> (b: bool)
    requires
        pc < 12,
    ensures
        b == black_class(pc as int),
{
    KEY_PATTERN[pc]
}

/// Classifies key `key` of a keyboard that starts at `start_key`.
pub fn key_type(start_key: usize, key: usize) -> (b: bool)
    ensures
        b == key_is_black(start_key as int, key as int),
{
    let pc: usize = (start_key % 12 + key % 12) % 12;
    is_black_class(pc)
}

} // verus!
