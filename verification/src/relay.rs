//! A normally open relay driven by a GPIO pin.
use vstd::prelude::*;

verus! {

/// The state of the relay contacts.
#[derive(Debug, Clone, Copy, PartialEq, Eq, Structural)]
pub enum Relay {
    Close,
    Open,
}

/// The relay state that a boolean command asks for: `true` closes it.
pub open spec fn relay_of(val: bool) -> Relay {
    if val {
        Relay::Close
    } else {
        Relay::Open
    }
}

impl From<bool> for Relay {
    fn from(val: bool) -> (res: Self) {
        if val {
            Self::Close
        } else {
            Self::Open
        }
    }
}

impl vstd::std_specs::convert::FromSpecImpl<bool> for Relay {
    open spec fn obeys_from_spec() -> bool {
        true
    }

    open spec fn from_spec(val: bool) -> Self {
        relay_of(val)
    }
}

} // verus!
