//! The recorder: what its tasks decide, as functions of what they have seen.
pub mod battery;
pub mod ble;
pub mod clock;
pub mod gps;
pub mod imu;
pub mod logger;
pub mod power;
pub mod screen;
pub mod store;
