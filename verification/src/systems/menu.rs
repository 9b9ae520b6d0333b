//! The start screen.

use crate::events::PlaySoundEvent;
use crate::resources::AppState;
use vstd::prelude::*;

verus! {

/// The sounds that starting a game makes.
pub open spec fn start_sounds() -> Seq<PlaySoundEvent> {
    seq![PlaySoundEvent::MenuBoop, PlaySoundEvent::GameStart]
}

/// On the start screen, the enter key starts the game. In any other state,
/// and without the key, nothing happens.
pub fn handle_menu_input(enter_pressed: bool, next_state: &mut AppState) -> (sounds: Vec<
    PlaySoundEvent,
>)
    ensures
        *old(next_state) == AppState::Menu && enter_pressed ==> *final(next_state)
            == AppState::Playing && sounds@ == start_sounds(),
        !(*old(next_state) == AppState::Menu && enter_pressed) ==> *final(next_state) == *old(
            next_state,
        ) && sounds@ == Seq::<PlaySoundEvent>::empty(),
{
    let mut sounds: Vec<PlaySoundEvent> = Vec::new();
    if *next_state == AppState::Menu && enter_pressed {
        sounds.push(PlaySoundEvent::MenuBoop);
        sounds.push(PlaySoundEvent::GameStart);
        *next_state = AppState::Playing;
        assert(sounds@ =~= start_sounds());
    }
    sounds
}

} // verus!
