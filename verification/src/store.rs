//! Session stores.

pub mod memory;

pub use memory::Memory;
