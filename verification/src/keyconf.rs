//! The sixteen keys of the COSMAC VIP hex keypad.
use vstd::prelude::*;

verus! {

/// Number of keys on the keypad.
pub const NUM_KEYS: usize = 16;

/// A key of the hex keypad. Which physical key stands for each one is for the
/// host to decide.
#[allow(non_camel_case_types)]
#[derive(PartialEq, Eq, Hash, Clone, Copy, Debug)]
pub enum COSMACVIP {
    KEY0,
    KEY1,
    KEY2,
    KEY3,
    KEY4,
    KEY5,
    KEY6,
    KEY7,
    KEY8,
    KEY9,
    KEYA,
    KEYB,
    KEYC,
    KEYD,
    KEYE,
    KEYF,
}

impl COSMACVIP {
    /// The hex digit that the key carries, which is its place in the
    /// key-held vector.
    pub open spec fn slot(self) -> int {
        match self {
            COSMACVIP::KEY0 => 0,
            COSMACVIP::KEY1 => 1,
            COSMACVIP::KEY2 => 2,
            COSMACVIP::KEY3 => 3,
            COSMACVIP::KEY4 => 4,
            COSMACVIP::KEY5 => 5,
            COSMACVIP::KEY6 => 6,
            COSMACVIP::KEY7 => 7,
            COSMACVIP::KEY8 => 8,
            COSMACVIP::KEY9 => 9,
            COSMACVIP::KEYA => 10,
            COSMACVIP::KEYB => 11,
            COSMACVIP::KEYC => 12,
            COSMACVIP::KEYD => 13,
            COSMACVIP::KEYE => 14,
            COSMACVIP::KEYF => 15,
        }
    }

    /// The key's place in the key-held vector.
    pub fn index(self) -> (k: usize)
        ensures
            k == self.slot(),
            k < NUM_KEYS,
    {
        match self {
            COSMACVIP::KEY0 => 0,
            COSMACVIP::KEY1 => 1,
            COSMACVIP::KEY2 => 2,
            COSMACVIP::KEY3 => 3,
            COSMACVIP::KEY4 => 4,
            COSMACVIP::KEY5 => 5,
            COSMACVIP::KEY6 => 6,
            COSMACVIP::KEY7 => 7,
            COSMACVIP::KEY8 => 8,
            COSMACVIP::KEY9 => 9,
            COSMACVIP::KEYA => 10,
            COSMACVIP::KEYB => 11,
            COSMACVIP::KEYC => 12,
            COSMACVIP::KEYD => 13,
            COSMACVIP::KEYE => 14,
            COSMACVIP::KEYF => 15,
        }
    }
}

} // verus!
