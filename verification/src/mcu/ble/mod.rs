//! Bluetooth: the central that follows the cadence sensor, and the peripheral that serves the
//! phone.
pub mod central;
pub mod peripheral;
