//! Register-level drivers for an I2C motion sensor (MPU-9250) and an
//! optical pulse-oximetry front end (MAX30102).

pub mod bus;
pub mod error;
pub mod max30102;
pub mod max30102_hayasen;
pub mod mpu9250;
pub mod mpu9250_hayasen;

pub use bus::I2cBus;
pub use error::Error;
