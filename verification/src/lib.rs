//! Schematic data conversion between Minecraft data versions, and the
//! signal-strength budget of the bus router.

pub mod text;
pub mod float;
pub mod float_add;
pub mod json;
pub mod nbt;
pub mod loss;
pub mod design;
pub mod design_decay;
pub mod design_corridor;
pub mod dataconverter;
