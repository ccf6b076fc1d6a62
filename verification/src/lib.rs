//! Core of a combat-game stat calculator: validated item records, typed
//! conditional stat modifiers, and a weapon ballistics engine.
//!
//! Fractional quantities (damage, fire rate, distances) are carried as exact
//! integers in thousandths of a unit; the ballistics engine returns exact
//! fractions and never rounds.

pub mod distance;
pub mod errors;
pub mod items;
pub mod record;
pub mod text;
pub mod weapon;
