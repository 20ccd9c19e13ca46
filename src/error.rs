//! The error type shared by the drivers.

use vstd::prelude::*;

verus! {

/// What can go wrong while talking to a sensor.
///
/// `E` is the error type of the bus that carries the transfers.
#[derive(Clone, Debug, PartialEq, Eq)]
pub enum Error<E> {
    /// The bus itself reported a failure.
    I2c(E),
    /// A register held a value outside the codes the device documents.
    InvalidData,
    /// The identity register did not hold the expected part number.
    NotDetected,
    /// The caller asked for a setting the device cannot take.
    ConfigError,
    /// A composite diagnostic failed; the message says which check.
    SensorSpecific(&'static str),
}

impl<E> From<E> for Error<E> {
    /// A bus error is an `I2c` failure.
    fn from(error: E) -> (r: Self)
        ensures
            r == Error::I2c(error),
    {
        Error::I2c(error)
    }
}

impl<E> vstd::std_specs::convert::FromSpecImpl<E> for Error<E> {
    open spec fn obeys_from_spec() -> bool {
        true
    }

    open spec fn from_spec(v: E) -> Self {
        Error::I2c(v)
    }
}

impl<E> Error<E> {
    /// True exactly for a failure reported by the bus.
    pub fn is_i2c_error(&self) -> (r: bool)
        ensures
            r <==> self is I2c,
    {
        match self {
            Error::I2c(_) => true,
            _ => false,
        }
    }

    /// True for a rejected setting and for a failed diagnostic.
    pub fn is_config_error(&self) -> (r: bool)
        ensures
            r <==> (self is ConfigError || self is SensorSpecific),
    {
        match self {
            Error::ConfigError | Error::SensorSpecific(_) => true,
            _ => false,
        }
    }

    /// The bus error carried by an `I2c` failure, `None` for any other kind.
    pub fn into_i2c_error(self) -> (r: Option<E>)
        ensures
            match self {
                Error::I2c(e) => r == Some(e),
                _ => r is None,
            },
    {
        match self {
            Error::I2c(e) => Some(e),
            _ => None,
        }
    }
}

} // verus!
