//! The game-over screen.

use crate::events::PlaySoundEvent;
use crate::resources::AppState;
use vstd::prelude::*;

verus! {

/// On the game-over screen, the enter key leads back to the start screen,
/// with a boop. In any other state, and without the key, nothing happens.
pub fn handle_game_over_input(enter_pressed: bool, next_state: &mut AppState) -> (sound: Option<
    PlaySoundEvent,
>)
    ensures
        *old(next_state) == AppState::GameOver && enter_pressed ==> *final(next_state)
            == AppState::Menu && sound == Some(PlaySoundEvent::MenuBoop),
        !(*old(next_state) == AppState::GameOver && enter_pressed) ==> *final(next_state) == *old(
            next_state,
        ) && sound is None,
{
    if *next_state == AppState::GameOver && enter_pressed {
        *next_state = AppState::Menu;
        Some(PlaySoundEvent::MenuBoop)
    } else {
        None
    }
}

} // verus!
