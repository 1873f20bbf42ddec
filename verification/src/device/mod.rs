//! Translators: what a vendor's devices understand.

pub mod commands;
pub mod eltex_esr200;

pub use commands::DeviceCommands;
pub use eltex_esr200::EltexEsr200;
