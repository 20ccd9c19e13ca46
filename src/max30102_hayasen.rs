//! Ready-made set-ups and shortcuts over the MAX30102 driver.

use vstd::prelude::*;
use crate::bus::{
    I2cBus, Step, Transfer, lemma_prefix_agrees, lemma_prefix_trans,
    lemma_step_outcome_extends, run_outcome, step_outcome,
};
use crate::error::Error;
use crate::max30102::{
    FifoSample, InterruptSource, Max30102, OperationMode, batch_outcome, count_outcome,
    enable_interrupt_step, force_reset_outcome, heart_rate_init_steps, identity_retry_outcome, identity_step,
    mode_outcome, reset_step, sample_outcome, shutdown_outcome, shutdown_step, spo2_init_steps, status_outcome,
    temperature_outcome, temperature_start_steps, threshold_step, wakeup_step, FIFO_CONFIG, INT_ENABLE_1,
    LED1_PA, LED2_PA, PROX_INT_THRESH, SPO2_CONFIG,
};

verus! {

/// A driver on a fresh bus has run `steps` with outcome `r`: on success the
/// driver is handed back; on failure only the error is, which is the one the
/// steps end with for some transcript.
pub open spec fn created<B: I2cBus>(r: Result<Max30102<B>, Error<B::Error>>, address: u8, steps: Seq<Step>) -> bool {
    match r {
        Ok(s) => {
            &&& s.device.address() == address
            &&& run_outcome(steps, address, s.device.log(), 0) == Some((s.device.log().len() as int, Ok::<(), Error<B::Error>>(())))
        },
        Err(e) => exists|log: Seq<Transfer<B::Error>>| #[trigger]
            run_outcome(steps, address, log, 0) == Some((log.len() as int, Err::<(), Error<B::Error>>(e))),
    }
}

/// Slower sampling (50/s), heavier averaging (16) and dimmer LEDs (0x0F).
pub open spec fn low_power_steps() -> Seq<Step> {
    seq![
        Step::Modify { reg: SPO2_CONFIG, keep: 0xE3, set: 0x00 },
        Step::Modify { reg: FIFO_CONFIG, keep: 0x1F, set: 0x80 },
        Step::Write { reg: LED1_PA, value: 0x0F },
        Step::Write { reg: LED2_PA, value: 0x0F },
    ]
}

/// Faster sampling (400/s), lighter averaging (2) and brighter LEDs (0x3F).
pub open spec fn high_performance_steps() -> Seq<Step> {
    seq![
        Step::Modify { reg: SPO2_CONFIG, keep: 0xE3, set: 0x0C },
        Step::Modify { reg: FIFO_CONFIG, keep: 0x1F, set: 0x20 },
        Step::Write { reg: LED1_PA, value: 0x3F },
        Step::Write { reg: LED2_PA, value: 0x3F },
    ]
}

pub open spec fn proximity_steps(threshold: u8) -> Seq<Step> {
    seq![
        Step::Write { reg: PROX_INT_THRESH, value: threshold },
        enable_interrupt_step(InterruptSource::AlcOverflow),
    ]
}

pub open spec fn fifo_interrupt_steps(threshold: u8) -> Seq<Step> {
    seq![threshold_step(threshold), enable_interrupt_step(InterruptSource::FifoAlmostFull)]
}

/// Shutdown flag, operating mode and both interrupt-status registers, read
/// from index `at` of `log` in that order, stopping at the first failure.
pub open spec fn sensor_status_outcome<E>(log: Seq<Transfer<E>>, address: u8, at: int) -> Option<(int, Result<(bool, OperationMode, (u8, u8)), Error<E>>)> {
    match shutdown_outcome(log, address, at) {
        Some((mark1, Ok(shut))) => match mode_outcome(log, address, mark1) {
            Some((mark2, Ok(mode))) => match status_outcome(log, address, mark2) {
                Some((mark3, Ok(status))) => Some((mark3, Ok((shut, mode, status)))),
                Some((mark3, Err(x))) => Some((mark3, Err(x))),
                None => None,
            },
            Some((mark2, Err(x))) => Some((mark2, Err(x))),
            None => None,
        },
        Some((mark1, Err(x))) => Some((mark1, Err(x))),
        None => None,
    }
}

/// A forced reset from index `at` of `log`, then, if it succeeded, the full
/// SpO2 set-up; `end` is where the transcript ends.
pub open spec fn reinitialized<E>(log: Seq<Transfer<E>>, address: u8, at: int, end: int, r: Result<(), Error<E>>) -> bool {
    match force_reset_outcome(log, address, at) {
        Some((m, Ok(()))) => run_outcome(spo2_init_steps(), address, log, m) == Some((end, r)),
        Some((m, Err(x))) => m == end && r == Err::<(), Error<E>>(x),
        None => false,
    }
}

/// Identity checks with retries keep their outcome as the log grows.
proof fn lemma_identity_retry_extends<E>(log: Seq<Transfer<E>>, longer: Seq<Transfer<E>>, address: u8, at: int, attempts: nat)
    requires
        identity_retry_outcome(log, address, at, attempts) is Some,
        log.len() <= longer.len(),
        longer.subrange(0, log.len() as int) == log,
    ensures
        identity_retry_outcome(longer, address, at, attempts) == identity_retry_outcome(log, address, at, attempts),
    decreases attempts,
{
    lemma_step_outcome_extends(identity_step(), address, log, longer, at);
    match step_outcome(identity_step(), address, log, at) {
        Some((m, Err(Error::NotDetected))) => {
            if attempts > 1 {
                lemma_identity_retry_extends(log, longer, address, m, (attempts - 1) as nat);
            }
        },
        _ => {},
    }
}

/// Creates a driver at `address` and runs the full SpO2 set-up.
pub fn create_default<B: I2cBus>(i2c: B, address: u8) -> (r: Result<Max30102<B>, Error<B::Error>>)
    ensures
        created(r, address, spo2_init_steps()),
{
    let mut sensor = Max30102::new(i2c, address);
    match sensor.initialize_sensor() {
        Ok(()) => Ok(sensor),
        Err(e) => {
            proof {
                let log = sensor.device.log();
                assert(run_outcome(spo2_init_steps(), address, log, 0) == Some((log.len() as int, Err::<(), Error<B::Error>>(e))));
            }
            Err(e)
        },
    }
}

/// Creates a driver at the default address and runs the full SpO2 set-up.
pub fn create_default_with_address<B: I2cBus>(i2c: B) -> (r: Result<Max30102<B>, Error<B::Error>>)
    ensures
        created(r, crate::max30102::DEFAULT_ADDRESS, spo2_init_steps()),
{
    let mut sensor = Max30102::new_default(i2c);
    match sensor.initialize_sensor() {
        Ok(()) => Ok(sensor),
        Err(e) => {
            proof {
                let log = sensor.device.log();
                assert(run_outcome(spo2_init_steps(), crate::max30102::DEFAULT_ADDRESS, log, 0)
                    == Some((log.len() as int, Err::<(), Error<B::Error>>(e))));
            }
            Err(e)
        },
    }
}

/// Creates a driver at `address` and runs the heart-rate set-up.
pub fn create_heart_rate_mode<B: I2cBus>(i2c: B, address: u8) -> (r: Result<Max30102<B>, Error<B::Error>>)
    ensures
        created(r, address, heart_rate_init_steps()),
{
    let mut sensor = Max30102::new(i2c, address);
    match sensor.initialize_heart_rate_mode() {
        Ok(()) => Ok(sensor),
        Err(e) => {
            proof {
                let log = sensor.device.log();
                assert(run_outcome(heart_rate_init_steps(), address, log, 0)
                    == Some((log.len() as int, Err::<(), Error<B::Error>>(e))));
            }
            Err(e)
        },
    }
}

/// One FIFO sample, `None` when the FIFO is empty.
pub fn read_fifo_sample<B: I2cBus>(sensor: &mut Max30102<B>) -> (r: Result<Option<FifoSample>, Error<B::Error>>)
    ensures
        final(sensor).device.extends(old(sensor).device),
        sample_outcome(final(sensor).device.log(), old(sensor).device.address(), old(sensor).device.log().len() as int)
            == Some((final(sensor).device.log().len() as int, r)),
{
    sensor.read_fifo_sample()
}

/// As many waiting samples as fit into `samples`, in one burst.
pub fn read_fifo_batch<B: I2cBus>(sensor: &mut Max30102<B>, samples: &mut [FifoSample]) -> (r: Result<usize, Error<B::Error>>)
    ensures
        final(sensor).device.extends(old(sensor).device),
        batch_outcome(
            final(sensor).device.log(),
            old(sensor).device.address(),
            old(sensor).device.log().len() as int,
            old(samples)@,
            final(samples)@,
            r,
        ),
{
    sensor.read_fifo_batch(samples)
}

/// The die temperature in sixteenths of a degree, `None` while not ready.
pub fn read_temperature<B: I2cBus>(sensor: &mut Max30102<B>) -> (r: Result<Option<i16>, Error<B::Error>>)
    ensures
        final(sensor).device.extends(old(sensor).device),
        temperature_outcome(final(sensor).device.log(), old(sensor).device.address(), old(sensor).device.log().len() as int)
            == Some((final(sensor).device.log().len() as int, r)),
{
    sensor.read_temperature()
}

/// Samples waiting in the FIFO.
pub fn get_available_samples<B: I2cBus>(sensor: &mut Max30102<B>) -> (r: Result<u8, Error<B::Error>>)
    ensures
        final(sensor).device.extends(old(sensor).device),
        count_outcome(final(sensor).device.log(), old(sensor).device.address(), old(sensor).device.log().len() as int)
            == Some((final(sensor).device.log().len() as int, r)),
{
    sensor.get_available_sample_count()
}

/// Slower sampling, heavier averaging and dimmer LEDs.
pub fn setup_low_power_mode<B: I2cBus>(sensor: &mut Max30102<B>) -> (r: Result<(), Error<B::Error>>)
    ensures
        final(sensor).device.performed(old(sensor).device, low_power_steps(), r),
{
    let steps = [
        Step::Modify { reg: SPO2_CONFIG, keep: 0xE3, set: 0x00 },
        Step::Modify { reg: FIFO_CONFIG, keep: 0x1F, set: 0x80 },
        Step::Write { reg: LED1_PA, value: 0x0F },
        Step::Write { reg: LED2_PA, value: 0x0F },
    ];
    proof {
        assert(steps@ =~= low_power_steps());
    }
    sensor.device.run_steps(&steps)
}

/// Faster sampling, lighter averaging and brighter LEDs.
pub fn setup_high_performance_mode<B: I2cBus>(sensor: &mut Max30102<B>) -> (r: Result<(), Error<B::Error>>)
    ensures
        final(sensor).device.performed(old(sensor).device, high_performance_steps(), r),
{
    let steps = [
        Step::Modify { reg: SPO2_CONFIG, keep: 0xE3, set: 0x0C },
        Step::Modify { reg: FIFO_CONFIG, keep: 0x1F, set: 0x20 },
        Step::Write { reg: LED1_PA, value: 0x3F },
        Step::Write { reg: LED2_PA, value: 0x3F },
    ];
    proof {
        assert(steps@ =~= high_performance_steps());
    }
    sensor.device.run_steps(&steps)
}

/// Writes the proximity threshold, then enables the ambient-light overflow
/// interrupt.
pub fn setup_proximity_detection<B: I2cBus>(sensor: &mut Max30102<B>, threshold: u8) -> (r: Result<(), Error<B::Error>>)
    ensures
        final(sensor).device.performed(old(sensor).device, proximity_steps(threshold), r),
{
    let steps = [
        Step::Write { reg: PROX_INT_THRESH, value: threshold },
        Step::Modify { reg: INT_ENABLE_1, keep: 0xFF, set: 0x20 },
    ];
    proof {
        assert(steps@ =~= proximity_steps(threshold));
    }
    sensor.device.run_steps(&steps)
}

/// Enables the new-data-ready interrupt.
pub fn enable_data_ready_interrupt<B: I2cBus>(sensor: &mut Max30102<B>) -> (r: Result<(), Error<B::Error>>)
    ensures
        final(sensor).device.performed(old(sensor).device, seq![enable_interrupt_step(InterruptSource::NewDataReady)], r),
{
    sensor.enable_interrupt(InterruptSource::NewDataReady)
}

/// Sets the almost-full threshold, then enables the FIFO-almost-full
/// interrupt. A threshold above 15 is refused before any transfer.
pub fn enable_fifo_interrupt<B: I2cBus>(sensor: &mut Max30102<B>, threshold: u8) -> (r: Result<(), Error<B::Error>>)
    ensures
        threshold > 15 ==> r == Err::<(), Error<B::Error>>(Error::ConfigError) && *final(sensor) == *old(sensor),
        threshold <= 15 ==> final(sensor).device.performed(old(sensor).device, fifo_interrupt_steps(threshold), r),
{
    if threshold > 15 {
        return Err(Error::ConfigError);
    }
    let steps = [
        Step::Modify { reg: FIFO_CONFIG, keep: 0xF0, set: threshold },
        Step::Modify { reg: INT_ENABLE_1, keep: 0xFF, set: 0x80 },
    ];
    proof {
        assert(steps@ =~= fifo_interrupt_steps(threshold));
    }
    sensor.device.run_steps(&steps)
}

/// Starts one temperature conversion.
pub fn start_temperature_measurement<B: I2cBus>(sensor: &mut Max30102<B>) -> (r: Result<(), Error<B::Error>>)
    ensures
        final(sensor).device.performed(old(sensor).device, temperature_start_steps(), r),
{
    sensor.start_temperature_measurement()
}

/// Shutdown flag, operating mode and interrupt status, in that order.
pub fn check_sensor_status<B: I2cBus>(sensor: &mut Max30102<B>) -> (r: Result<(bool, OperationMode, (u8, u8)), Error<B::Error>>)
    ensures
        final(sensor).device.extends(old(sensor).device),
        sensor_status_outcome(final(sensor).device.log(), old(sensor).device.address(), old(sensor).device.log().len() as int)
            == Some((final(sensor).device.log().len() as int, r)),
{
    let ghost mark0 = sensor.device.log();
    let shut = match sensor.is_shutdown() {
        Ok(v) => v,
        Err(e) => return Err(e),
    };
    let ghost mark1 = sensor.device.log();
    let mode = match sensor.get_operation_mode() {
        Ok(m) => m,
        Err(e) => {
            proof {
                lemma_prefix_trans(mark0, mark1, sensor.device.log());
                lemma_prefix_agrees(mark1, sensor.device.log());
            }
            return Err(e);
        },
    };
    let ghost mark2 = sensor.device.log();
    let status = sensor.read_interrupt_status();
    proof {
        let mark3 = sensor.device.log();
        lemma_prefix_trans(mark0, mark1, mark2);
        lemma_prefix_trans(mark0, mark2, mark3);
        lemma_prefix_trans(mark1, mark2, mark3);
        lemma_prefix_agrees(mark1, mark3);
        lemma_prefix_agrees(mark2, mark3);
    }
    match status {
        Ok(s) => Ok((shut, mode, s)),
        Err(e) => Err(e),
    }
}

/// A forced reset and, if it succeeds, the full SpO2 set-up.
pub fn reset_and_reinitialize<B: I2cBus>(sensor: &mut Max30102<B>) -> (r: Result<(), Error<B::Error>>)
    ensures
        final(sensor).device.extends(old(sensor).device),
        reinitialized(
            final(sensor).device.log(),
            old(sensor).device.address(),
            old(sensor).device.log().len() as int,
            final(sensor).device.log().len() as int,
            r,
        ),
{
    let ghost start = sensor.device.log().len() as int;
    let ghost address = sensor.device.address();
    if let Err(e) = sensor.force_reset() {
        return Err(e);
    }
    let ghost mid = sensor.device.log();
    let r = sensor.initialize_sensor();
    proof {
        let end = sensor.device.log();
        lemma_prefix_trans(old(sensor).device.log(), mid, end);
        lemma_step_outcome_extends(reset_step(), address, mid, end, start);
        let m = step_outcome(reset_step(), address, mid, start).unwrap().0;
        lemma_identity_retry_extends(mid, end, address, m, 3);
    }
    r
}

/// Shuts the device down.
pub fn power_save_mode<B: I2cBus>(sensor: &mut Max30102<B>) -> (r: Result<(), Error<B::Error>>)
    ensures
        final(sensor).device.performed(old(sensor).device, seq![shutdown_step()], r),
{
    sensor.shutdown()
}

/// Wakes the device from shutdown.
pub fn wake_from_power_save<B: I2cBus>(sensor: &mut Max30102<B>) -> (r: Result<(), Error<B::Error>>)
    ensures
        final(sensor).device.performed(old(sensor).device, seq![wakeup_step()], r),
{
    sensor.wakeup()
}

} // verus!
