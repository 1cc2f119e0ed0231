//! Whether output is colored: the first choice made in a run wins.

use vstd::prelude::*;

verus! {

/// The colour choice of a run, unset until first made.
#[derive(Debug)]
pub struct ColorState {
    no_color: Option<bool>,
}

impl ColorState {
    /// The choice made so far, if any.
    pub closed spec fn choice(&self) -> Option<bool> {
        self.no_color
    }

    /// No choice made yet.
    pub fn new() -> (r: Self)
        ensures
            r.choice() is None,
    {
        ColorState { no_color: None }
    }
}

/// Records the choice `no_color` unless one was already made, and returns
/// whether colours are to be switched off now.
pub fn init(state: &mut ColorState, no_color: bool) -> (disable: bool)
    ensures
        final(state).choice() == match old(state).choice() {
            Some(c) => Some(c),
            None => Some(no_color),
        },
        disable == no_color,
{
    if state.no_color.is_none() {
        state.no_color = Some(no_color);
    }
    no_color
}

/// Whether colours are on: unless the choice made was to switch them off.
pub fn is_color_enabled(state: &ColorState) -> (r: bool)
    ensures
        r == !(state.choice() == Some(true)),
{
    match state.no_color {
        Some(c) => !c,
        None => true,
    }
}

} // verus!
