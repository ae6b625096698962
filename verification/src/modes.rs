//! Interaction modes of a demo driving the oracle, and the menu line each
//! one shows.

use vstd::prelude::*;

verus! {

broadcast use vstd::string::group_string_axioms;

/// What the caller of the oracle is currently doing: constructing obstacle
/// segments, colliding a probe segment against them, or ranking them by
/// distance from a probe segment.
#[derive(Clone, Copy, Debug, PartialEq, Eq, Structural)]
pub enum Business {
    Construct,
    Collide,
    Neighbours,
}

/// The menu line shown for each mode.
pub open spec fn info_line_spec(b: Business) -> Seq<char> {
    match b {
        Business::Construct => "[ constructing ] <M> switch to collide mode, <C> to clear or <Q> to exit"@,
        Business::Collide => "[ colliding ] <M> switch to neighbours mode, <C> to clear or <Q> to exit"@,
        Business::Neighbours => "[ finding neighbours ] <M> switch to construct mode, <C> to clear or <Q> to exit"@,
    }
}

/// The mode that follows each mode: the three modes cycle.
pub open spec fn toggle_mode_spec(b: Business) -> Business {
    match b {
        Business::Construct => Business::Collide,
        Business::Collide => Business::Neighbours,
        Business::Neighbours => Business::Construct,
    }
}

impl Business {
    /// The menu line describing this mode and the keys it answers to.
    pub fn info_line(&self) -> (r: String)
        ensures
            r@ == info_line_spec(*self),
    {
        match self {
            Business::Construct => "[ constructing ] <M> switch to collide mode, <C> to clear or <Q> to exit".to_string(),
            Business::Collide => "[ colliding ] <M> switch to neighbours mode, <C> to clear or <Q> to exit".to_string(),
            Business::Neighbours => "[ finding neighbours ] <M> switch to construct mode, <C> to clear or <Q> to exit".to_string(),
        }
    }

    /// Steps to the next mode in the cycle.
    pub fn toggle_mode(&mut self)
        ensures
            *final(self) == toggle_mode_spec(*old(self)),
    {
        *self = match *self {
            Business::Construct => Business::Collide,
            Business::Collide => Business::Neighbours,
            Business::Neighbours => Business::Construct,
        };
    }
}

} // verus!
