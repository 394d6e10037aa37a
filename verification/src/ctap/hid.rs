//! The transport that requests come by.

use vstd::prelude::*;

verus! {

/// The number of the channel that a request came by.
pub type ChannelID = [u8; 4];

} // verus!
