//! Ready-made set-up for the MPU-9250 driver.

use vstd::prelude::*;
use crate::bus::{I2cBus, Transfer, run_outcome};
use crate::error::Error;
use crate::mpu9250::{AccelRange, GyroRange, Mpu9250, init_steps};

verus! {

/// Creates a driver at `address` and sets it up with the 2 g and 250
/// degree-per-second ranges. On success both full scales are kept; on failure
/// only the error is handed back, the one the set-up ends with for some
/// transcript.
pub fn create_default<B: I2cBus>(i2c: B, address: u8) -> (r: Result<Mpu9250<B>, Error<B::Error>>)
    ensures
        match r {
            Ok(s) => {
                &&& s.device.address() == address
                &&& run_outcome(init_steps(AccelRange::Range2G, GyroRange::Range250Dps), address, s.device.log(), 0)
                    == Some((s.device.log().len() as int, Ok::<(), Error<B::Error>>(())))
                &&& s.accel_full_scale == 2
                &&& s.gyro_full_scale == 250
            },
            Err(e) => exists|log: Seq<Transfer<B::Error>>| #[trigger]
                run_outcome(init_steps(AccelRange::Range2G, GyroRange::Range250Dps), address, log, 0)
                    == Some((log.len() as int, Err::<(), Error<B::Error>>(e))),
        },
{
    let mut sensor = Mpu9250::new(i2c, address);
    match sensor.initialize_sensor(AccelRange::Range2G, GyroRange::Range250Dps) {
        Ok(()) => Ok(sensor),
        Err(e) => {
            proof {
                let log = sensor.device.log();
                assert(run_outcome(init_steps(AccelRange::Range2G, GyroRange::Range250Dps), address, log, 0)
                    == Some((log.len() as int, Err::<(), Error<B::Error>>(e))));
            }
            Err(e)
        },
    }
}

} // verus!
