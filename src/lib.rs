//! Color commands for a fleet of networked lights: name resolution, packing,
//! command translation and the sequential dispatch of writes to every device.
pub mod color;
pub mod command;
pub mod dispatch;
