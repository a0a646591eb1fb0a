//! Conversion of schematic data between Minecraft data versions.

pub mod helpers;
pub mod registry;
pub mod dispatch;
pub mod walker;
pub mod versions;
