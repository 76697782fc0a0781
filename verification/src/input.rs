//! The player's intents, sampled once per frame.

use vstd::prelude::*;

verus! {

#[derive(Clone, Copy, PartialEq, Eq, Structural, Debug)]
pub struct Input {
    pub left: bool,
    pub right: bool,
    /// Jump.
    pub a: bool,
    pub restart: bool,
    /// Switch to the other player.
    pub debug_1: bool,
    /// Skip to the next level.
    pub debug_2: bool,
    /// Go back one level.
    pub debug_3: bool,
}

impl Input {
    /// Nothing pressed.
    pub open spec fn idle() -> Input {
        Input {
            left: false,
            right: false,
            a: false,
            restart: false,
            debug_1: false,
            debug_2: false,
            debug_3: false,
        }
    }

    pub fn new() -> (input: Input)
        ensures
            input == Input::idle(),
    {
        Input {
            left: false,
            right: false,
            a: false,
            restart: false,
            debug_1: false,
            debug_2: false,
            debug_3: false,
        }
    }
}

} // verus!
