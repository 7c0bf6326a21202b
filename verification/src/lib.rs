//! Verified core of a screenless bike-ride recorder, and of a bike computer on the same board.
pub mod advert;
pub mod bike_computer;
pub mod bytes;
pub mod calendar;
pub mod fixed;
pub mod ieee;
pub mod mcu;
pub mod protocol;
pub mod sentence;
pub mod text;
pub mod ticks;
