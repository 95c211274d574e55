//! A dice roller: it rolls dice and flips coins on request, reads dice notation such
//! as `3d6`, and says which triggers a roll fires.
//!
//! [`roller::DiceRoller`] answers the requests. Each of them has two forms: one that
//! takes its seed from the clock, and one, ending in `_from`, that is given it and
//! whose answer is determined by its arguments.
pub mod clock;
pub mod editor;
pub mod generator;
pub mod json;
pub mod laws;
pub mod notation;
pub mod roll_laws;
pub mod roller;
pub mod text;
pub mod triggers;
