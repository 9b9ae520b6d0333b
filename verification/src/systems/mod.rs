//! The systems: one function for each rule that runs once a frame.

pub mod asteroid;
pub mod camera;
pub mod collision;
pub mod game_over;
pub mod health;
pub mod loading;
pub mod menu;
pub mod player;
pub mod projectile;
