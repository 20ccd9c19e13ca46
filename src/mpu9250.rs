//! Driver for the MPU-9250 motion sensor: identity, power, range set-up,
//! raw and scaled readings, and sleep.
//!
//! Readings are exact fixed-point values: an axis reads `raw * full_scale`
//! in units of full scale / 32768, the temperature reads in units of
//! 1 / 34000 degree Celsius.

use vstd::prelude::*;
use crate::bus::{
    Device, I2cBus, Step, Transfer, is_register_read, lemma_performed_nothing, lemma_performed_stops,
    lemma_performed_then, lift_value, run_outcome, written_value,
};
use crate::error::Error;

verus! {

pub const WHO_AM_I: u8 = 0x75;
pub const WHO_AM_I_VALUE: u8 = 0x74;
pub const PWR_MGMT_1: u8 = 0x6B;
pub const ACCEL_CONFIG: u8 = 0x1C;
pub const GYRO_CONFIG: u8 = 0x1B;
pub const ACCEL_XOUT_H: u8 = 0x3B;
pub const TEMP_OUT_H: u8 = 0x41;
pub const GYRO_XOUT_H: u8 = 0x43;
pub const SMPRT_DIV: u8 = 0x19;
pub const CONFIG: u8 = 0x1A;

/// Converted readings are in units of full scale / `SCALE_DIVISOR`: a raw
/// value `v` under a full scale `f` reads `v * f`, meaning `v * f / 32768`.
pub const SCALE_DIVISOR: i32 = 32768;
/// Temperatures are in units of 1 / `TEMPERATURE_DIVISOR` degree Celsius.
pub const TEMPERATURE_DIVISOR: i32 = 34000;
/// 36.53 degrees Celsius, the reading at raw value 0, in those units.
pub const TEMPERATURE_OFFSET: i32 = 1242020;

/// Accelerometer full-scale range.
#[derive(Clone, Copy, Debug, PartialEq, Eq, Structural)]
pub enum AccelRange {
    Range2G,
    Range4G,
    Range8G,
    Range16G,
}

impl AccelRange {
    /// The configuration byte: the range code in bits 4:3.
    pub open spec fn spec_config(self) -> u8 {
        match self {
            AccelRange::Range2G => 0x00,
            AccelRange::Range4G => 0x08,
            AccelRange::Range8G => 0x10,
            AccelRange::Range16G => 0x18,
        }
    }

    /// Full scale in g.
    pub open spec fn spec_full_scale(self) -> u16 {
        match self {
            AccelRange::Range2G => 2,
            AccelRange::Range4G => 4,
            AccelRange::Range8G => 8,
            AccelRange::Range16G => 16,
        }
    }

    #[verifier::when_used_as_spec(spec_config)]
    pub fn config(self) -> (r: u8)
        ensures
            r == self.spec_config(),
    {
        match self {
            AccelRange::Range2G => 0x00,
            AccelRange::Range4G => 0x08,
            AccelRange::Range8G => 0x10,
            AccelRange::Range16G => 0x18,
        }
    }

    #[verifier::when_used_as_spec(spec_full_scale)]
    pub fn full_scale(self) -> (r: u16)
        ensures
            r == self.spec_full_scale(),
    {
        match self {
            AccelRange::Range2G => 2,
            AccelRange::Range4G => 4,
            AccelRange::Range8G => 8,
            AccelRange::Range16G => 16,
        }
    }
}

/// Gyroscope full-scale range.
#[derive(Clone, Copy, Debug, PartialEq, Eq, Structural)]
pub enum GyroRange {
    Range250Dps,
    Range500Dps,
    Range1000Dps,
    Range2000Dps,
}

impl GyroRange {
    /// The configuration byte: the range code in bits 4:3.
    pub open spec fn spec_config(self) -> u8 {
        match self {
            GyroRange::Range250Dps => 0x00,
            GyroRange::Range500Dps => 0x08,
            GyroRange::Range1000Dps => 0x10,
            GyroRange::Range2000Dps => 0x18,
        }
    }

    /// Full scale in degrees per second.
    pub open spec fn spec_full_scale(self) -> u16 {
        match self {
            GyroRange::Range250Dps => 250,
            GyroRange::Range500Dps => 500,
            GyroRange::Range1000Dps => 1000,
            GyroRange::Range2000Dps => 2000,
        }
    }

    #[verifier::when_used_as_spec(spec_config)]
    pub fn config(self) -> (r: u8)
        ensures
            r == self.spec_config(),
    {
        match self {
            GyroRange::Range250Dps => 0x00,
            GyroRange::Range500Dps => 0x08,
            GyroRange::Range1000Dps => 0x10,
            GyroRange::Range2000Dps => 0x18,
        }
    }

    #[verifier::when_used_as_spec(spec_full_scale)]
    pub fn full_scale(self) -> (r: u16)
        ensures
            r == self.spec_full_scale(),
    {
        match self {
            GyroRange::Range250Dps => 250,
            GyroRange::Range500Dps => 500,
            GyroRange::Range1000Dps => 1000,
            GyroRange::Range2000Dps => 2000,
        }
    }
}

/// Digital low-pass filter bandwidth.
#[derive(Clone, Copy, Debug, PartialEq, Eq, Structural)]
pub enum DlpfConfig {
    Bandwidth260Hz,
    Bandwidth184Hz,
}

impl DlpfConfig {
    pub open spec fn spec_code(self) -> u8 {
        match self {
            DlpfConfig::Bandwidth260Hz => 0x00,
            DlpfConfig::Bandwidth184Hz => 0x01,
        }
    }

    #[verifier::when_used_as_spec(spec_code)]
    pub fn code(self) -> (r: u8)
        ensures
            r == self.spec_code(),
    {
        match self {
            DlpfConfig::Bandwidth260Hz => 0x00,
            DlpfConfig::Bandwidth184Hz => 0x01,
        }
    }
}

/// Driver for the MPU-9250 motion sensor.
///
/// The two full scales are 0 until the matching set-up call succeeds; a
/// converted reading taken before then is 0.
pub struct Mpu9250<B: I2cBus> {
    pub device: Device<B>,
    pub accel_full_scale: u16,
    pub gyro_full_scale: u16,
}

pub open spec fn identity_step() -> Step {
    Step::Expect { reg: WHO_AM_I, value: WHO_AM_I_VALUE }
}

/// Awake, internal clock: a full overwrite of the power register.
pub open spec fn power_step() -> Step {
    Step::Write { reg: PWR_MGMT_1, value: 0x01 }
}

pub open spec fn accel_step(range: AccelRange) -> Step {
    Step::Write { reg: ACCEL_CONFIG, value: range.config() }
}

pub open spec fn gyro_step(range: GyroRange) -> Step {
    Step::Write { reg: GYRO_CONFIG, value: range.config() }
}

/// Sets the sleep bit (6) of the power register, keeping the others.
pub open spec fn sleep_step() -> Step {
    Step::SelectModify { reg: PWR_MGMT_1, keep: 0xFF, set: 0x40 }
}

/// Clears the sleep bit (6) of the power register, keeping the others.
pub open spec fn wake_step() -> Step {
    Step::SelectModify { reg: PWR_MGMT_1, keep: 0xBF, set: 0x00 }
}

pub open spec fn init_steps(accel_range: AccelRange, gyro_range: GyroRange) -> Seq<Step> {
    seq![identity_step(), power_step(), accel_step(accel_range), gyro_step(gyro_range)]
}

/// A signed 16-bit value from its big-endian bytes.
pub open spec fn be_i16(hi: u8, lo: u8) -> i16 {
    (if hi < 128 { hi * 256 + lo } else { hi * 256 + lo - 65536 }) as i16
}

/// The three axes of a 6-byte burst, X first.
pub open spec fn axes_of(bytes: Seq<u8>) -> Seq<i16> {
    seq![be_i16(bytes[0], bytes[1]), be_i16(bytes[2], bytes[3]), be_i16(bytes[4], bytes[5])]
}

/// Each axis times the full scale.
pub open spec fn scaled(axes: Seq<i16>, full_scale: u16) -> Seq<i32> {
    axes.map_values(|v: i16| (v * full_scale) as i32)
}

/// The temperature for raw reading `raw`, raw / 340 + 36.53 degrees, in
/// units of 1 / 34000 degree.
pub open spec fn temperature_units(raw: i16) -> i32 {
    (100 * raw + TEMPERATURE_OFFSET) as i32
}

/// A three-axis result with the axes seen as a sequence.
pub open spec fn axes_result<T, E>(r: Result<[T; 3], Error<E>>) -> Result<Seq<T>, Error<E>> {
    match r {
        Ok(a) => Ok(a@),
        Err(e) => Err(e),
    }
}

/// A burst read of the three axes at `reg`, from index `at` of `log`.
pub open spec fn axes_outcome<E>(log: Seq<Transfer<E>>, address: u8, at: int, reg: u8) -> Option<(int, Result<Seq<i16>, Error<E>>)> {
    if 0 <= at < log.len() && is_register_read(log[at], address, reg, 6) {
        Some((at + 1, lift_value(log[at].outcome, axes_of(log[at].received))))
    } else {
        None
    }
}

/// A burst read of the three axes at `reg`, each then scaled by `full_scale`.
pub open spec fn scaled_outcome<E>(log: Seq<Transfer<E>>, address: u8, at: int, reg: u8, full_scale: u16) -> Option<(int, Result<Seq<i32>, Error<E>>)> {
    match axes_outcome(log, address, at, reg) {
        Some((e, Ok(axes))) => Some((e, Ok(scaled(axes, full_scale)))),
        Some((e, Err(x))) => Some((e, Err(x))),
        None => None,
    }
}

/// A burst read of the temperature register pair, from index `at` of `log`.
pub open spec fn temp_raw_outcome<E>(log: Seq<Transfer<E>>, address: u8, at: int) -> Option<(int, Result<i16, Error<E>>)> {
    if 0 <= at < log.len() && is_register_read(log[at], address, TEMP_OUT_H, 2) {
        Some((at + 1, lift_value(log[at].outcome, be_i16(log[at].received[0], log[at].received[1]))))
    } else {
        None
    }
}

/// A signed 16-bit value from its big-endian bytes.
fn be_word(hi: u8, lo: u8) -> (r: i16)
    ensures
        r == be_i16(hi, lo),
{
    let u: i32 = hi as i32 * 256 + lo as i32;
    if u >= 32768 {
        (u - 65536) as i16
    } else {
        u as i16
    }
}

/// The temperature for a raw reading, in units of 1 / 34000 degree Celsius.
pub fn temperature_from_raw(raw: i16) -> (r: i32)
    ensures
        r == temperature_units(raw),
{
    100 * raw as i32 + TEMPERATURE_OFFSET
}

/// A raw axis reading scaled by `full_scale`.
fn scale_axis(raw: i16, full_scale: u16) -> (r: i32)
    ensures
        r == (raw * full_scale) as i32,
{
    proof {
        assert(-32768 * 65535 <= raw * full_scale <= 32767 * 65535) by (nonlinear_arith)
            requires
                -32768 <= raw <= 32767,
                0 <= full_scale <= 65535,
        ;
    }
    raw as i32 * full_scale as i32
}

impl<B: I2cBus> Mpu9250<B> {
    pub fn new(i2c: B, address: u8) -> (r: Self)
        ensures
            r.device.address() == address,
            r.device.log() == Seq::<Transfer<B::Error>>::empty(),
            r.device.controller() == i2c,
            r.accel_full_scale == 0,
            r.gyro_full_scale == 0,
    {
        Mpu9250 { device: Device::new(i2c, address), accel_full_scale: 0, gyro_full_scale: 0 }
    }

    /// The bus, handed back.
    pub fn release(self) -> (r: B)
        ensures
            r == self.device.controller(),
    {
        self.device.release()
    }

    /// Reads the identity register: `Ok` if it holds the expected ID, else
    /// `NotDetected`.
    pub fn verify_identity(&mut self) -> (r: Result<(), Error<B::Error>>)
        ensures
            final(self).device.performed(old(self).device, seq![identity_step()], r),
            final(self).accel_full_scale == old(self).accel_full_scale,
            final(self).gyro_full_scale == old(self).gyro_full_scale,
    {
        self.device.run_step(Step::Expect { reg: WHO_AM_I, value: WHO_AM_I_VALUE })
    }

    /// Wakes the device on its internal clock, overwriting the power register.
    pub fn configure_power(&mut self) -> (r: Result<(), Error<B::Error>>)
        ensures
            final(self).device.performed(old(self).device, seq![power_step()], r),
            final(self).accel_full_scale == old(self).accel_full_scale,
            final(self).gyro_full_scale == old(self).gyro_full_scale,
    {
        self.device.run_step(Step::Write { reg: PWR_MGMT_1, value: 0x01 })
    }

    /// Writes the accelerometer range and, once written, keeps its full scale
    /// for `read_acceleration`.
    pub fn setup_accelerometer(&mut self, range: AccelRange) -> (r: Result<(), Error<B::Error>>)
        ensures
            final(self).device.performed(old(self).device, seq![accel_step(range)], r),
            final(self).accel_full_scale == if r is Ok { range.full_scale() } else { old(self).accel_full_scale },
            final(self).gyro_full_scale == old(self).gyro_full_scale,
    {
        let r = self.device.run_step(Step::Write { reg: ACCEL_CONFIG, value: range.config() });
        if r.is_ok() {
            self.accel_full_scale = range.full_scale();
        }
        r
    }

    /// Writes the gyroscope range and, once written, keeps its full scale for
    /// `read_angular_velocity`.
    pub fn setup_gyroscope(&mut self, range: GyroRange) -> (r: Result<(), Error<B::Error>>)
        ensures
            final(self).device.performed(old(self).device, seq![gyro_step(range)], r),
            final(self).gyro_full_scale == if r is Ok { range.full_scale() } else { old(self).gyro_full_scale },
            final(self).accel_full_scale == old(self).accel_full_scale,
    {
        let r = self.device.run_step(Step::Write { reg: GYRO_CONFIG, value: range.config() });
        if r.is_ok() {
            self.gyro_full_scale = range.full_scale();
        }
        r
    }

    /// Identity, power, accelerometer range, gyroscope range, in that order;
    /// stops at the first failure, with no rollback. Each full scale is kept
    /// exactly when its range was written.
    pub fn initialize_sensor(&mut self, accel_range: AccelRange, gyro_range: GyroRange) -> (r: Result<(), Error<B::Error>>)
        ensures
            final(self).device.performed(old(self).device, init_steps(accel_range, gyro_range), r),
            final(self).accel_full_scale == if run_outcome(
                init_steps(accel_range, gyro_range).take(3),
                old(self).device.address(),
                final(self).device.log(),
                old(self).device.log().len() as int,
            ) matches Some((_, Ok(()))) {
                accel_range.full_scale()
            } else {
                old(self).accel_full_scale
            },
            final(self).gyro_full_scale == if r is Ok { gyro_range.full_scale() } else { old(self).gyro_full_scale },
    {
        let ghost d0 = self.device;
        let ghost steps = init_steps(accel_range, gyro_range);
        proof {
            lemma_performed_nothing(d0);
            assert(seq![identity_step()] =~= Seq::<Step>::empty().push(identity_step()));
            assert(steps.take(2) =~= seq![identity_step()].push(power_step()));
            assert(steps.take(3) =~= steps.take(2).push(accel_step(accel_range)));
            assert(steps =~= steps.take(3).push(gyro_step(gyro_range)));
        }
        let r = self.verify_identity();
        if r.is_err() {
            proof {
                lemma_performed_stops(d0, self.device, seq![identity_step()], steps.skip(1), r);
                assert(seq![identity_step()] + steps.skip(1) =~= steps);
                lemma_performed_stops(d0, self.device, seq![identity_step()], steps.take(3).skip(1), r);
                assert(seq![identity_step()] + steps.take(3).skip(1) =~= steps.take(3));
            }
            return r;
        }
        let ghost d1 = self.device;
        let r = self.configure_power();
        proof {
            lemma_performed_then(d0, d1, self.device, seq![identity_step()], power_step(), r);
        }
        if r.is_err() {
            proof {
                lemma_performed_stops(d0, self.device, steps.take(2), steps.skip(2), r);
                assert(steps.take(2) + steps.skip(2) =~= steps);
                lemma_performed_stops(d0, self.device, steps.take(2), steps.take(3).skip(2), r);
                assert(steps.take(2) + steps.take(3).skip(2) =~= steps.take(3));
            }
            return r;
        }
        let ghost d2 = self.device;
        let r = self.setup_accelerometer(accel_range);
        proof {
            lemma_performed_then(d0, d2, self.device, steps.take(2), accel_step(accel_range), r);
        }
        if r.is_err() {
            proof {
                lemma_performed_stops(d0, self.device, steps.take(3), steps.skip(3), r);
                assert(steps.take(3) + steps.skip(3) =~= steps);
            }
            return r;
        }
        let ghost d3 = self.device;
        let r = self.setup_gyroscope(gyro_range);
        proof {
            lemma_performed_then(d0, d3, self.device, steps.take(3), gyro_step(gyro_range), r);
            crate::bus::lemma_run_outcome_extends(steps.take(3), d0.address(), d3.log(), self.device.log(), d0.log().len() as int);
        }
        r
    }

    /// Burst-reads the three raw accelerometer axes.
    pub fn read_accel_raw(&mut self) -> (r: Result<[i16; 3], Error<B::Error>>)
        ensures
            final(self).device.extends(old(self).device),
            final(self).accel_full_scale == old(self).accel_full_scale,
            final(self).gyro_full_scale == old(self).gyro_full_scale,
            axes_outcome(final(self).device.log(), old(self).device.address(), old(self).device.log().len() as int, ACCEL_XOUT_H)
                == Some((final(self).device.log().len() as int, axes_result(r))),
    {
        self.read_axes(ACCEL_XOUT_H)
    }

    /// Burst-reads the three raw gyroscope axes.
    pub fn read_gyro_raw(&mut self) -> (r: Result<[i16; 3], Error<B::Error>>)
        ensures
            final(self).device.extends(old(self).device),
            final(self).accel_full_scale == old(self).accel_full_scale,
            final(self).gyro_full_scale == old(self).gyro_full_scale,
            axes_outcome(final(self).device.log(), old(self).device.address(), old(self).device.log().len() as int, GYRO_XOUT_H)
                == Some((final(self).device.log().len() as int, axes_result(r))),
    {
        self.read_axes(GYRO_XOUT_H)
    }

    fn read_axes(&mut self, reg: u8) -> (r: Result<[i16; 3], Error<B::Error>>)
        ensures
            final(self).device.extends(old(self).device),
            final(self).accel_full_scale == old(self).accel_full_scale,
            final(self).gyro_full_scale == old(self).gyro_full_scale,
            axes_outcome(final(self).device.log(), old(self).device.address(), old(self).device.log().len() as int, reg)
                == Some((final(self).device.log().len() as int, axes_result(r))),
    {
        let r = match self.device.read_registers(reg, 6) {
            Ok(b) => {
                let axes = [be_word(b[0], b[1]), be_word(b[2], b[3]), be_word(b[4], b[5])];
                proof {
                    assert(axes@ =~= axes_of(b@));
                }
                Ok(axes)
            },
            Err(e) => Err(e),
        };
        r
    }

    /// Burst-reads the raw temperature.
    pub fn read_temp_raw(&mut self) -> (r: Result<i16, Error<B::Error>>)
        ensures
            final(self).device.extends(old(self).device),
            final(self).accel_full_scale == old(self).accel_full_scale,
            final(self).gyro_full_scale == old(self).gyro_full_scale,
            temp_raw_outcome(final(self).device.log(), old(self).device.address(), old(self).device.log().len() as int)
                == Some((final(self).device.log().len() as int, r)),
    {
        let r = match self.device.read_registers(TEMP_OUT_H, 2) {
            Ok(b) => Ok(be_word(b[0], b[1])),
            Err(e) => Err(e),
        };
        r
    }

    /// Acceleration on the three axes, scaled by the accelerometer's full
    /// scale only, in units of g / 32768.
    pub fn read_acceleration(&mut self) -> (r: Result<[i32; 3], Error<B::Error>>)
        ensures
            final(self).device.extends(old(self).device),
            final(self).accel_full_scale == old(self).accel_full_scale,
            final(self).gyro_full_scale == old(self).gyro_full_scale,
            scaled_outcome(
                final(self).device.log(),
                old(self).device.address(),
                old(self).device.log().len() as int,
                ACCEL_XOUT_H,
                old(self).accel_full_scale,
            ) == Some((final(self).device.log().len() as int, axes_result(r))),
    {
        let raw = match self.read_accel_raw() {
            Ok(a) => a,
            Err(e) => return Err(e),
        };
        let scale = self.accel_full_scale;
        let out = [scale_axis(raw[0], scale), scale_axis(raw[1], scale), scale_axis(raw[2], scale)];
        proof {
            assert(out@ =~= scaled(raw@, scale));
        }
        Ok(out)
    }

    /// Angular velocity on the three axes, scaled by the gyroscope's full
    /// scale only, in units of degrees per second / 32768.
    pub fn read_angular_velocity(&mut self) -> (r: Result<[i32; 3], Error<B::Error>>)
        ensures
            final(self).device.extends(old(self).device),
            final(self).accel_full_scale == old(self).accel_full_scale,
            final(self).gyro_full_scale == old(self).gyro_full_scale,
            scaled_outcome(
                final(self).device.log(),
                old(self).device.address(),
                old(self).device.log().len() as int,
                GYRO_XOUT_H,
                old(self).gyro_full_scale,
            ) == Some((final(self).device.log().len() as int, axes_result(r))),
    {
        let raw = match self.read_gyro_raw() {
            Ok(a) => a,
            Err(e) => return Err(e),
        };
        let scale = self.gyro_full_scale;
        let out = [scale_axis(raw[0], scale), scale_axis(raw[1], scale), scale_axis(raw[2], scale)];
        proof {
            assert(out@ =~= scaled(raw@, scale));
        }
        Ok(out)
    }

    /// The temperature, raw / 340 + 36.53 degrees Celsius, in units of
    /// 1 / 34000 degree; independent of the configured ranges.
    pub fn read_temperature_celsius(&mut self) -> (r: Result<i32, Error<B::Error>>)
        ensures
            final(self).device.extends(old(self).device),
            final(self).accel_full_scale == old(self).accel_full_scale,
            final(self).gyro_full_scale == old(self).gyro_full_scale,
            match temp_raw_outcome(final(self).device.log(), old(self).device.address(), old(self).device.log().len() as int) {
                Some((e, Ok(raw))) => e == final(self).device.log().len() && r == Ok::<i32, Error<B::Error>>(temperature_units(raw)),
                Some((e, Err(x))) => e == final(self).device.log().len() && r == Err::<i32, Error<B::Error>>(x),
                None => false,
            },
    {
        match self.read_temp_raw() {
            Ok(raw) => Ok(temperature_from_raw(raw)),
            Err(e) => Err(e),
        }
    }

    /// Writes the sample-rate divider; the output rate is the base rate over
    /// `divider + 1`.
    pub fn set_sample_rate(&mut self, divider: u8) -> (r: Result<(), Error<B::Error>>)
        ensures
            final(self).device.performed(old(self).device, seq![Step::Write { reg: SMPRT_DIV, value: divider }], r),
            final(self).accel_full_scale == old(self).accel_full_scale,
            final(self).gyro_full_scale == old(self).gyro_full_scale,
    {
        self.device.run_step(Step::Write { reg: SMPRT_DIV, value: divider })
    }

    /// Writes the low-pass filter preset.
    pub fn set_dlpf_config(&mut self, config: DlpfConfig) -> (r: Result<(), Error<B::Error>>)
        ensures
            final(self).device.performed(old(self).device, seq![Step::Write { reg: CONFIG, value: config.code() }], r),
            final(self).accel_full_scale == old(self).accel_full_scale,
            final(self).gyro_full_scale == old(self).gyro_full_scale,
    {
        self.device.run_step(Step::Write { reg: CONFIG, value: config.code() })
    }

    /// Sets the sleep bit of the power register, keeping the other bits.
    pub fn enter_sleep_mode(&mut self) -> (r: Result<(), Error<B::Error>>)
        ensures
            final(self).device.performed(old(self).device, seq![sleep_step()], r),
            final(self).accel_full_scale == old(self).accel_full_scale,
            final(self).gyro_full_scale == old(self).gyro_full_scale,
    {
        self.device.run_step(Step::SelectModify { reg: PWR_MGMT_1, keep: 0xFF, set: 0x40 })
    }

    /// Clears the sleep bit of the power register, keeping the other bits.
    pub fn wake_up(&mut self) -> (r: Result<(), Error<B::Error>>)
        ensures
            final(self).device.performed(old(self).device, seq![wake_step()], r),
            final(self).accel_full_scale == old(self).accel_full_scale,
            final(self).gyro_full_scale == old(self).gyro_full_scale,
    {
        self.device.run_step(Step::SelectModify { reg: PWR_MGMT_1, keep: 0xBF, set: 0x00 })
    }
}

/// Sleeping and then waking a power register that held `value` leaves it as
/// it was with the sleep bit clear: every other bit is kept, and a register
/// that was awake gets back exactly its old value.
pub proof fn lemma_sleep_wake_round_trip(value: u8)
    ensures
        written_value(wake_step(), written_value(sleep_step(), value)) == value & 0xBF,
        written_value(sleep_step(), value) & 0x40 == 0x40,
        value & 0x40 == 0 ==> written_value(wake_step(), written_value(sleep_step(), value)) == value,
{
    assert(((value & 0xFF) | 0x40) & 0xBF | 0x00 == value & 0xBF) by (bit_vector);
    assert(((value & 0xFF) | 0x40) & 0x40 == 0x40) by (bit_vector);
    assert(value & 0x40 == 0 ==> value & 0xBF == value) by (bit_vector);
}

/// For every accelerometer range the full scale is even, so a raw reading of
/// 16384, half of 32768, converts to exactly half the full scale.
pub proof fn lemma_half_scale_reading(range: AccelRange)
    ensures
        range.full_scale() % 2 == 0,
        16384 * range.full_scale() == SCALE_DIVISOR * (range.full_scale() / 2),
{
}

} // verus!
