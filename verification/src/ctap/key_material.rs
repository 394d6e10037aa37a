//! What tells this model of authenticator apart.

use vstd::prelude::*;

verus! {

/// The number of the model.
pub const AAGUID: [u8; 16] = [
    0x66, 0x4d, 0x9f, 0x67, 0x84, 0xa2, 0x41, 0x2a, 0x9f, 0xf7, 0xb4, 0xf7, 0xd8, 0xee, 0x6d, 0x05,
];

} // verus!
