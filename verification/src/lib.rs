//! Control plane of an interactive card-game engine, the terminal viewer's
//! state machine, and the request rules of its web service.

pub mod model;
pub mod interactive;
pub mod tui;
pub mod players;
pub mod simulation;
pub mod text;
pub mod web;
