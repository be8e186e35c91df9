//! Dice rolls, skill checks and character sheets for tabletop sessions.
pub mod character;
pub mod commands;
pub mod correction;
pub mod dice;
pub mod judge;
pub mod messages;
pub mod order;
pub mod session;
pub mod skills;
pub mod text;
