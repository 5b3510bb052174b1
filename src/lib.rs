//! Firmware resolution for an emulated PC: identify ROM images by content,
//! choose the best complete bundle for a hardware profile, and produce the
//! regions, patches and checkpoint labels of the active firmware set.
pub mod catalog;
pub mod builtin;
pub mod scan;
pub mod resolve;
pub mod active;
pub mod manager;
pub mod laws;
