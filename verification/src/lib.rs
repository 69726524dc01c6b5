//! A tabletop helper for the Necromancer class and its thralls: dice rolls,
//! the challenge-rating budget of summoned undead, their hit points, and the
//! parsing of what the player types.

pub mod dice;
pub mod input;
pub mod undead;
pub mod necromancer;
pub mod paths;
