//! Control core of a spacecraft electrical power system: the command codec,
//! the per-rail overcurrent supervisor, the command dispatcher and gateway
//! decisions, and the watchdog's service schedule.

pub mod codec;
pub mod dispatch;
pub mod rail;
pub mod watchdog;
