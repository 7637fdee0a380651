//! Liquid-sorting puzzle engine: vials of stacked liquid layers and floating
//! objects, pour legality, incremental transfers, mixing and level goals.
//!
//! Quantities are fixed-point integers: a volume is counted in thousandths of a
//! unit, a transfer's progress in thousandths of the whole, and lengths in
//! micrometres.
pub mod constant;
pub mod level;
pub mod object;
pub mod proofs;
pub mod script;
pub mod transfer;
pub mod user_data;
pub mod vial;

pub use level::{levels, Goal, Level, Palette};
pub use object::{Object, ObjectFlags, ObjectKind, Point};
pub use vial::{rgb, Color, Layer, Transfer, Transition, Vial, VialLoc};
