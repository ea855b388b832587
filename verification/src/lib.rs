//! Register-level driver core for a USB Power-Delivery sink controller:
//! the non-volatile-memory programming protocol (password-gated unlock,
//! sector erase/program/read, re-lock) over an abstract two-wire bus, and
//! the bit-exact codec for 32-bit power-data-object words.

pub mod bus;
pub mod nvm;
pub mod pdo;
