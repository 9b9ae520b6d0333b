//! The loading screen.

use crate::resources::AppState;
use vstd::prelude::*;

verus! {

/// Every asset has been loaded.
pub open spec fn all_loaded(loaded: Seq<bool>) -> bool {
    forall|i: int| 0 <= i < loaded.len() ==> loaded[i]
}

/// Leaves the loading screen for the start screen once every asset has been
/// loaded. `loaded` says of each asset whether it has.
pub fn check_loading(loaded: &Vec<bool>, next_state: &mut AppState)
    ensures
        *old(next_state) == AppState::Loading && all_loaded(loaded@) ==> *final(next_state)
            == AppState::Menu,
        !(*old(next_state) == AppState::Loading && all_loaded(loaded@)) ==> *final(next_state)
            == *old(next_state),
{
    if *next_state != AppState::Loading {
        return ;
    }
    let mut i: usize = 0;
    while i < loaded.len()
        invariant
            i <= loaded.len(),
            *next_state == *old(next_state),
            forall|k: int| 0 <= k < i ==> loaded[k],
        decreases loaded.len() - i,
    {
        if !loaded[i] {
            return ;
        }
        i += 1;
    }
    *next_state = AppState::Menu;
}

} // verus!
