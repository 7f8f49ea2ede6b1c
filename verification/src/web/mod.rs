pub mod auth;
pub mod cards;
pub mod config;
pub mod decks;

pub mod error;

pub mod games;
pub mod session;
