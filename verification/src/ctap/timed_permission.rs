//! For how long a touch counts.

use vstd::prelude::*;

verus! {

/// Whether the user was asked for a touch, and gave one, for a U2F request.
/// Times are in milliseconds.
#[derive(Clone, Copy, Debug, PartialEq, Eq, Structural)]
pub struct U2fUserPresenceState {
    /// Until when a touch is waited for, if one is.
    pub needs_up: Option<isize>,
    /// Until when the last touch counts, if there was one.
    pub has_up: Option<isize>,
    /// For how long a touch is waited for.
    pub request_duration: isize,
    /// For how long a touch counts.
    pub presence_duration: isize,
}

impl U2fUserPresenceState {
    /// The state in which no touch is waited for and none was given.
    pub fn new(request_duration: isize, presence_duration: isize) -> (state: U2fUserPresenceState)
        ensures
            state == (U2fUserPresenceState {
                needs_up: None,
                has_up: None,
                request_duration,
                presence_duration,
            }),
    {
        U2fUserPresenceState { needs_up: None, has_up: None, request_duration, presence_duration }
    }
}

} // verus!
