//! A verified engine for the two-player trick-taking card game Sixty-six.

pub mod sort;

pub mod cards;
pub mod engine;
pub mod game;
pub mod store;
pub mod laws;
