//! Driver for the MAX30102 pulse-oximetry and heart-rate front end: mode and
//! channel configuration, interrupts, the 32-slot sample FIFO and the die
//! temperature.

use vstd::prelude::*;
use crate::bus::{
    Device, I2cBus, Step, Transfer, is_register_read, lemma_prefix_trans, lemma_run_outcome_single,
    lemma_step_outcome_extends, lemma_extends_agrees, lemma_extends_trans, lift_value, register_byte, step_outcome, written_value,
};
use crate::error::Error;

verus! {

pub const PART_ID: u8 = 0xFF;
pub const INT_STATUS_1: u8 = 0x00;
pub const INT_STATUS_2: u8 = 0x01;
pub const INT_ENABLE_1: u8 = 0x02;
pub const INT_ENABLE_2: u8 = 0x03;
pub const FIFO_WR_PTR: u8 = 0x04;
pub const FIFO_OVF_CNT: u8 = 0x05;
pub const FIFO_RD_PTR: u8 = 0x06;
pub const FIFO_DATA: u8 = 0x07;
pub const FIFO_CONFIG: u8 = 0x08;
pub const MODE_CONFIG: u8 = 0x09;
pub const SPO2_CONFIG: u8 = 0x0A;
pub const LED1_PA: u8 = 0x0C;
pub const LED2_PA: u8 = 0x0D;
pub const PILOT_PA: u8 = 0x10;
pub const MULTI_LED_CONFIG1: u8 = 0x11;
pub const MULTI_LED_CONFIG2: u8 = 0x12;
pub const TEMP_INTR: u8 = 0x1F;
pub const TEMP_FRAC: u8 = 0x20;
pub const TEMP_CONFIG: u8 = 0x21;
pub const PROX_INT_THRESH: u8 = 0x30;

/// The address the device answers on unless strapped otherwise.
pub const DEFAULT_ADDRESS: u8 = 0x57;
/// Number of sample slots in the device's FIFO.
pub const FIFO_DEPTH: u8 = 32;
/// What the part-ID register holds.
pub const EXPECTED_PART_ID: u8 = 0x15;
/// Bytes per FIFO sample: two 3-byte channels.
pub const SAMPLE_BYTES: usize = 6;
/// The largest burst a batch read issues: a full FIFO.
pub const MAX_BURST_BYTES: usize = 192;

pub const SHUTDOWN_MESSAGE: &'static str = "Sensor is in Shutdown Mode";
pub const OVERFLOW_MESSAGE: &'static str = "FIFO overflow detected";
pub const RESET_FAILED_MESSAGE: &'static str = "Reset Failed: Sensor not responding";

/// How many identity checks `force_reset` makes at most.
pub const RESET_ATTEMPTS: u8 = 3;

#[derive(Clone, Copy, Debug, PartialEq, Eq, Structural)]
pub enum OperationMode {
    HeartRate,
    SpO2,
    MultiLed,
}

impl OperationMode {
    /// The mode bits (2:0) of the mode-configuration register.
    pub open spec fn spec_code(self) -> u8 {
        match self {
            OperationMode::HeartRate => 0x02,
            OperationMode::SpO2 => 0x03,
            OperationMode::MultiLed => 0x07,
        }
    }

    #[verifier::when_used_as_spec(spec_code)]
    pub fn code(self) -> (r: u8)
        ensures
            r == self.spec_code(),
    {
        match self {
            OperationMode::HeartRate => 0x02,
            OperationMode::SpO2 => 0x03,
            OperationMode::MultiLed => 0x07,
        }
    }
}

/// The mode whose code is `bits`, if any.
pub open spec fn mode_of(bits: u8) -> Option<OperationMode> {
    if bits == 0x02 {
        Some(OperationMode::HeartRate)
    } else if bits == 0x03 {
        Some(OperationMode::SpO2)
    } else if bits == 0x07 {
        Some(OperationMode::MultiLed)
    } else {
        None
    }
}

#[derive(Clone, Copy, Debug, PartialEq, Eq, Structural)]
pub enum SamplingRate {
    Rate50,
    Rate100,
    Rate200,
    Rate400,
    Rate800,
    Rate1000,
    Rate1600,
    Rate3200,
}

impl SamplingRate {
    /// The 3-bit field code.
    pub open spec fn spec_code(self) -> u8 {
        match self {
            SamplingRate::Rate50 => 0,
            SamplingRate::Rate100 => 1,
            SamplingRate::Rate200 => 2,
            SamplingRate::Rate400 => 3,
            SamplingRate::Rate800 => 4,
            SamplingRate::Rate1000 => 5,
            SamplingRate::Rate1600 => 6,
            SamplingRate::Rate3200 => 7,
        }
    }

    #[verifier::when_used_as_spec(spec_code)]
    pub fn code(self) -> (r: u8)
        ensures
            r == self.spec_code(),
    {
        match self {
            SamplingRate::Rate50 => 0,
            SamplingRate::Rate100 => 1,
            SamplingRate::Rate200 => 2,
            SamplingRate::Rate400 => 3,
            SamplingRate::Rate800 => 4,
            SamplingRate::Rate1000 => 5,
            SamplingRate::Rate1600 => 6,
            SamplingRate::Rate3200 => 7,
        }
    }
}

/// LED pulse width; a longer pulse gives a finer ADC resolution (15 to 18 bits).
#[derive(Clone, Copy, Debug, PartialEq, Eq, Structural)]
pub enum LedPulseWidth {
    Width69us,
    Width118us,
    Width215us,
    Width411us,
}

impl LedPulseWidth {
    /// The 2-bit field code.
    pub open spec fn spec_code(self) -> u8 {
        match self {
            LedPulseWidth::Width69us => 0,
            LedPulseWidth::Width118us => 1,
            LedPulseWidth::Width215us => 2,
            LedPulseWidth::Width411us => 3,
        }
    }

    #[verifier::when_used_as_spec(spec_code)]
    pub fn code(self) -> (r: u8)
        ensures
            r == self.spec_code(),
    {
        match self {
            LedPulseWidth::Width69us => 0,
            LedPulseWidth::Width118us => 1,
            LedPulseWidth::Width215us => 2,
            LedPulseWidth::Width411us => 3,
        }
    }
}

/// Full-scale range of the ADC.
#[derive(Clone, Copy, Debug, PartialEq, Eq, Structural)]
pub enum AdcRange {
    Range2048na,
    Range4096na,
    Range8192na,
    Range16384na,
}

impl AdcRange {
    /// The 2-bit field code.
    pub open spec fn spec_code(self) -> u8 {
        match self {
            AdcRange::Range2048na => 0,
            AdcRange::Range4096na => 1,
            AdcRange::Range8192na => 2,
            AdcRange::Range16384na => 3,
        }
    }

    #[verifier::when_used_as_spec(spec_code)]
    pub fn code(self) -> (r: u8)
        ensures
            r == self.spec_code(),
    {
        match self {
            AdcRange::Range2048na => 0,
            AdcRange::Range4096na => 1,
            AdcRange::Range8192na => 2,
            AdcRange::Range16384na => 3,
        }
    }
}

#[derive(Clone, Copy, Debug, PartialEq, Eq, Structural)]
pub enum SampleAveraging {
    NoAveraging,
    Average2,
    Average4,
    Average8,
    Average16,
    Average32,
}

impl SampleAveraging {
    /// The 3-bit field code.
    pub open spec fn spec_code(self) -> u8 {
        match self {
            SampleAveraging::NoAveraging => 0,
            SampleAveraging::Average2 => 1,
            SampleAveraging::Average4 => 2,
            SampleAveraging::Average8 => 3,
            SampleAveraging::Average16 => 4,
            SampleAveraging::Average32 => 5,
        }
    }

    #[verifier::when_used_as_spec(spec_code)]
    pub fn code(self) -> (r: u8)
        ensures
            r == self.spec_code(),
    {
        match self {
            SampleAveraging::NoAveraging => 0,
            SampleAveraging::Average2 => 1,
            SampleAveraging::Average4 => 2,
            SampleAveraging::Average8 => 3,
            SampleAveraging::Average16 => 4,
            SampleAveraging::Average32 => 5,
        }
    }
}

#[derive(Clone, Copy, Debug, PartialEq, Eq, Structural)]
pub enum InterruptSource {
    FifoAlmostFull,
    NewDataReady,
    AlcOverflow,
    PowerReady,
    TemperatureReady,
}

impl InterruptSource {
    /// The interrupt-enable register that holds this source's bit.
    pub open spec fn spec_register(self) -> u8 {
        match self {
            InterruptSource::TemperatureReady => INT_ENABLE_2,
            _ => INT_ENABLE_1,
        }
    }

    /// This source's bit within its register.
    pub open spec fn spec_mask(self) -> u8 {
        match self {
            InterruptSource::FifoAlmostFull => 0x80,
            InterruptSource::NewDataReady => 0x40,
            InterruptSource::AlcOverflow => 0x20,
            InterruptSource::PowerReady => 0x01,
            InterruptSource::TemperatureReady => 0x02,
        }
    }

    #[verifier::when_used_as_spec(spec_register)]
    pub fn register(self) -> (r: u8)
        ensures
            r == self.spec_register(),
    {
        match self {
            InterruptSource::TemperatureReady => INT_ENABLE_2,
            _ => INT_ENABLE_1,
        }
    }

    #[verifier::when_used_as_spec(spec_mask)]
    pub fn mask(self) -> (r: u8)
        ensures
            r == self.spec_mask(),
    {
        match self {
            InterruptSource::FifoAlmostFull => 0x80,
            InterruptSource::NewDataReady => 0x40,
            InterruptSource::AlcOverflow => 0x20,
            InterruptSource::PowerReady => 0x01,
            InterruptSource::TemperatureReady => 0x02,
        }
    }
}

/// What a multi-LED time slot drives.
#[derive(Clone, Copy, Debug, PartialEq, Eq, Structural)]
pub enum LedSlot {
    Disabled,
    Led1Red,
    Led2Ir,
    Led3Green,
    PilotLed1,
    PilotLed2,
    PilotLed3,
}

impl LedSlot {
    /// The 3-bit slot code.
    pub open spec fn spec_code(self) -> u8 {
        match self {
            LedSlot::Disabled => 0,
            LedSlot::Led1Red => 1,
            LedSlot::Led2Ir => 2,
            LedSlot::Led3Green => 3,
            LedSlot::PilotLed1 => 5,
            LedSlot::PilotLed2 => 6,
            LedSlot::PilotLed3 => 7,
        }
    }

    #[verifier::when_used_as_spec(spec_code)]
    pub fn code(self) -> (r: u8)
        ensures
            r == self.spec_code(),
    {
        match self {
            LedSlot::Disabled => 0,
            LedSlot::Led1Red => 1,
            LedSlot::Led2Ir => 2,
            LedSlot::Led3Green => 3,
            LedSlot::PilotLed1 => 5,
            LedSlot::PilotLed2 => 6,
            LedSlot::PilotLed3 => 7,
        }
    }
}

/// One FIFO sample: the two optical channels, 18 bits each.
#[derive(Clone, Copy, Debug, PartialEq, Eq, Structural)]
pub struct FifoSample {
    pub red: u32,
    pub ir: u32,
}

/// Driver for the MAX30102 pulse-oximetry and heart-rate sensor.
pub struct Max30102<B: I2cBus> {
    pub device: Device<B>,
}

// ---- register-level steps of the operations ----

pub open spec fn identity_step() -> Step {
    Step::Expect { reg: PART_ID, value: EXPECTED_PART_ID }
}

pub open spec fn reset_step() -> Step {
    Step::Write { reg: MODE_CONFIG, value: 0x40 }
}

pub open spec fn shutdown_step() -> Step {
    Step::Modify { reg: MODE_CONFIG, keep: 0xFF, set: 0x80 }
}

pub open spec fn wakeup_step() -> Step {
    Step::Modify { reg: MODE_CONFIG, keep: 0x7F, set: 0x00 }
}

pub open spec fn mode_step(mode: OperationMode) -> Step {
    Step::Modify { reg: MODE_CONFIG, keep: 0xF8, set: mode.code() }
}

pub open spec fn adc_range_step(range: AdcRange) -> Step {
    Step::Modify { reg: SPO2_CONFIG, keep: 0x9F, set: (range.code() * 32) as u8 }
}

pub open spec fn sampling_rate_step(rate: SamplingRate) -> Step {
    Step::Modify { reg: SPO2_CONFIG, keep: 0xE3, set: (rate.code() * 4) as u8 }
}

pub open spec fn pulse_width_step(width: LedPulseWidth) -> Step {
    Step::Modify { reg: SPO2_CONFIG, keep: 0xFC, set: width.code() }
}

pub open spec fn averaging_step(averaging: SampleAveraging) -> Step {
    Step::Modify { reg: FIFO_CONFIG, keep: 0x1F, set: (averaging.code() * 32) as u8 }
}

pub open spec fn rollover_step(enable: bool) -> Step {
    if enable {
        Step::Modify { reg: FIFO_CONFIG, keep: 0xFF, set: 0x10 }
    } else {
        Step::Modify { reg: FIFO_CONFIG, keep: 0xEF, set: 0x00 }
    }
}

pub open spec fn threshold_step(threshold: u8) -> Step {
    Step::Modify { reg: FIFO_CONFIG, keep: 0xF0, set: threshold }
}

/// The amplitude register of LED 1 (red) or 2 (infrared).
pub open spec fn led_register(led: u8) -> u8 {
    if led == 1 {
        LED1_PA
    } else {
        LED2_PA
    }
}

pub open spec fn enable_interrupt_step(source: InterruptSource) -> Step {
    Step::Modify { reg: source.register(), keep: 0xFF, set: source.mask() }
}

pub open spec fn disable_interrupt_step(source: InterruptSource) -> Step {
    Step::Modify { reg: source.register(), keep: !source.mask(), set: 0x00 }
}

pub open spec fn clear_fifo_steps() -> Seq<Step> {
    seq![
        Step::Write { reg: FIFO_WR_PTR, value: 0 },
        Step::Write { reg: FIFO_OVF_CNT, value: 0 },
        Step::Write { reg: FIFO_RD_PTR, value: 0 },
    ]
}

pub open spec fn temperature_start_steps() -> Seq<Step> {
    seq![
        enable_interrupt_step(InterruptSource::TemperatureReady),
        Step::Write { reg: TEMP_CONFIG, value: 0x01 },
    ]
}

/// Two 3-bit slot codes packed into one byte, `high` in the upper nibble.
pub open spec fn slot_pair(low: LedSlot, high: LedSlot) -> u8 {
    (high.code() * 16 + low.code()) as u8
}

pub open spec fn led_slot_steps(s1: LedSlot, s2: LedSlot, s3: LedSlot, s4: LedSlot) -> Seq<Step> {
    seq![
        Step::Write { reg: MULTI_LED_CONFIG1, value: slot_pair(s1, s2) },
        Step::Write { reg: MULTI_LED_CONFIG2, value: slot_pair(s3, s4) },
    ]
}

/// Full SpO2 set-up: identity, reset, empty FIFO, SpO2 mode at 4096 nA,
/// 100 samples/s, 411 us pulses, 4-sample averaging, rollover on, threshold
/// 15, both LEDs at 0x1F, FIFO-almost-full and new-data interrupts on.
pub open spec fn spo2_init_steps() -> Seq<Step> {
    seq![identity_step(), reset_step()] + clear_fifo_steps() + seq![
        mode_step(OperationMode::SpO2),
        adc_range_step(AdcRange::Range4096na),
        sampling_rate_step(SamplingRate::Rate100),
        pulse_width_step(LedPulseWidth::Width411us),
        averaging_step(SampleAveraging::Average4),
        rollover_step(true),
        threshold_step(15),
        Step::Write { reg: LED1_PA, value: 0x1F },
        Step::Write { reg: LED2_PA, value: 0x1F },
        enable_interrupt_step(InterruptSource::FifoAlmostFull),
        enable_interrupt_step(InterruptSource::NewDataReady),
    ]
}

/// Heart-rate set-up: as the SpO2 one, in heart-rate mode, without rollover or
/// threshold, with only the infrared LED lit and only the FIFO-almost-full
/// interrupt on.
pub open spec fn heart_rate_init_steps() -> Seq<Step> {
    seq![identity_step(), reset_step()] + clear_fifo_steps() + seq![
        mode_step(OperationMode::HeartRate),
        adc_range_step(AdcRange::Range4096na),
        sampling_rate_step(SamplingRate::Rate100),
        pulse_width_step(LedPulseWidth::Width411us),
        averaging_step(SampleAveraging::Average4),
        Step::Write { reg: LED2_PA, value: 0x1F },
        enable_interrupt_step(InterruptSource::FifoAlmostFull),
    ]
}

impl<B: I2cBus> Max30102<B> {
    pub fn new(i2c: B, address: u8) -> (r: Self)
        ensures
            r.device.address() == address,
            r.device.log() == Seq::<Transfer<B::Error>>::empty(),
            r.device.controller() == i2c,
    {
        Max30102 { device: Device::new(i2c, address) }
    }

    /// A driver for the device at its default address.
    pub fn new_default(i2c: B) -> (r: Self)
        ensures
            r.device.address() == DEFAULT_ADDRESS,
            r.device.log() == Seq::<Transfer<B::Error>>::empty(),
            r.device.controller() == i2c,
    {
        Self::new(i2c, DEFAULT_ADDRESS)
    }

    /// The bus, handed back.
    pub fn release(self) -> (r: B)
        ensures
            r == self.device.controller(),
    {
        self.device.release()
    }

    /// Reads the part-ID register: `Ok` if it holds the expected ID, else
    /// `NotDetected`.
    pub fn verify_identity(&mut self) -> (r: Result<(), Error<B::Error>>)
        ensures
            final(self).device.performed(old(self).device, seq![identity_step()], r),
    {
        self.device.run_step(Step::Expect { reg: PART_ID, value: EXPECTED_PART_ID })
    }

    /// Sets the self-clearing reset bit of the mode register.
    pub fn reset(&mut self) -> (r: Result<(), Error<B::Error>>)
        ensures
            final(self).device.performed(old(self).device, seq![reset_step()], r),
    {
        self.device.run_step(Step::Write { reg: MODE_CONFIG, value: 0x40 })
    }

    /// Sets the shutdown bit (7), keeping the other mode bits.
    pub fn shutdown(&mut self) -> (r: Result<(), Error<B::Error>>)
        ensures
            final(self).device.performed(old(self).device, seq![shutdown_step()], r),
    {
        self.device.run_step(Step::Modify { reg: MODE_CONFIG, keep: 0xFF, set: 0x80 })
    }

    /// Clears the shutdown bit (7), keeping the other mode bits.
    pub fn wakeup(&mut self) -> (r: Result<(), Error<B::Error>>)
        ensures
            final(self).device.performed(old(self).device, seq![wakeup_step()], r),
    {
        self.device.run_step(Step::Modify { reg: MODE_CONFIG, keep: 0x7F, set: 0x00 })
    }

    /// Replaces the mode bits (2:0), keeping the others.
    pub fn set_operation_mode(&mut self, mode: OperationMode) -> (r: Result<(), Error<B::Error>>)
        ensures
            final(self).device.performed(old(self).device, seq![mode_step(mode)], r),
    {
        self.device.run_step(Step::Modify { reg: MODE_CONFIG, keep: 0xF8, set: mode.code() })
    }

    /// Replaces the ADC-range field (bits 6:5) of the SpO2 register.
    pub fn set_adc_range(&mut self, range: AdcRange) -> (r: Result<(), Error<B::Error>>)
        ensures
            final(self).device.performed(old(self).device, seq![adc_range_step(range)], r),
    {
        let code = range.code();
        proof {
            assert(code < 8 ==> code << 5u8 == code * 32) by (bit_vector);
        }
        self.device.run_step(Step::Modify { reg: SPO2_CONFIG, keep: 0x9F, set: code << 5u8 })
    }

    /// Replaces the sampling-rate field (bits 4:2) of the SpO2 register.
    pub fn set_sampling_rate(&mut self, rate: SamplingRate) -> (r: Result<(), Error<B::Error>>)
        ensures
            final(self).device.performed(old(self).device, seq![sampling_rate_step(rate)], r),
    {
        let code = rate.code();
        proof {
            assert(code < 8 ==> code << 2u8 == code * 4) by (bit_vector);
        }
        self.device.run_step(Step::Modify { reg: SPO2_CONFIG, keep: 0xE3, set: code << 2u8 })
    }

    /// Replaces the pulse-width field (bits 1:0) of the SpO2 register.
    pub fn set_pulse_width(&mut self, width: LedPulseWidth) -> (r: Result<(), Error<B::Error>>)
        ensures
            final(self).device.performed(old(self).device, seq![pulse_width_step(width)], r),
    {
        self.device.run_step(Step::Modify { reg: SPO2_CONFIG, keep: 0xFC, set: width.code() })
    }

    /// Replaces the averaging field (bits 7:5) of the FIFO register.
    pub fn set_sample_averaging(&mut self, averaging: SampleAveraging) -> (r: Result<(), Error<B::Error>>)
        ensures
            final(self).device.performed(old(self).device, seq![averaging_step(averaging)], r),
    {
        let code = averaging.code();
        proof {
            assert(code < 8 ==> code << 5u8 == code * 32) by (bit_vector);
        }
        self.device.run_step(Step::Modify { reg: FIFO_CONFIG, keep: 0x1F, set: code << 5u8 })
    }

    /// Sets or clears the rollover bit (4) of the FIFO register.
    pub fn enable_fifo_rollover(&mut self, enable: bool) -> (r: Result<(), Error<B::Error>>)
        ensures
            final(self).device.performed(old(self).device, seq![rollover_step(enable)], r),
    {
        if enable {
            self.device.run_step(Step::Modify { reg: FIFO_CONFIG, keep: 0xFF, set: 0x10 })
        } else {
            self.device.run_step(Step::Modify { reg: FIFO_CONFIG, keep: 0xEF, set: 0x00 })
        }
    }

    /// Replaces the almost-full threshold (bits 3:0) of the FIFO register.
    /// A threshold above 15 is refused before any transfer.
    pub fn set_fifo_almost_full_threshold(&mut self, threshold: u8) -> (r: Result<(), Error<B::Error>>)
        ensures
            threshold > 15 ==> r == Err::<(), Error<B::Error>>(Error::ConfigError) && *final(self) == *old(self),
            threshold <= 15 ==> final(self).device.performed(old(self).device, seq![threshold_step(threshold)], r),
    {
        if threshold > 15 {
            return Err(Error::ConfigError);
        }
        self.device.run_step(Step::Modify { reg: FIFO_CONFIG, keep: 0xF0, set: threshold })
    }

    /// Writes the pulse amplitude of LED 1 (red) or 2 (infrared); any other
    /// LED is refused before any transfer.
    pub fn set_led_pulse_amplitude(&mut self, led: u8, amplitude: u8) -> (r: Result<(), Error<B::Error>>)
        ensures
            !(led == 1 || led == 2) ==> r == Err::<(), Error<B::Error>>(Error::ConfigError) && *final(self) == *old(self),
            (led == 1 || led == 2) ==> final(self).device.performed(
                old(self).device,
                seq![Step::Write { reg: led_register(led), value: amplitude }],
                r,
            ),
    {
        let register = match led {
            1 => LED1_PA,
            2 => LED2_PA,
            _ => return Err(Error::ConfigError),
        };
        self.device.run_step(Step::Write { reg: register, value: amplitude })
    }

    /// Writes the pilot LED's pulse amplitude.
    pub fn set_pilot_led_amplitude(&mut self, amplitude: u8) -> (r: Result<(), Error<B::Error>>)
        ensures
            final(self).device.performed(old(self).device, seq![Step::Write { reg: PILOT_PA, value: amplitude }], r),
    {
        self.device.run_step(Step::Write { reg: PILOT_PA, value: amplitude })
    }

    /// Sets the source's enable bit, keeping the other bits of its register.
    pub fn enable_interrupt(&mut self, interrupt: InterruptSource) -> (r: Result<(), Error<B::Error>>)
        ensures
            final(self).device.performed(old(self).device, seq![enable_interrupt_step(interrupt)], r),
    {
        self.device.run_step(Step::Modify { reg: interrupt.register(), keep: 0xFF, set: interrupt.mask() })
    }

    /// Clears the source's enable bit, keeping the other bits of its register.
    pub fn disable_interrupt(&mut self, interrupt: InterruptSource) -> (r: Result<(), Error<B::Error>>)
        ensures
            final(self).device.performed(old(self).device, seq![disable_interrupt_step(interrupt)], r),
    {
        self.device.run_step(Step::Modify { reg: interrupt.register(), keep: !interrupt.mask(), set: 0x00 })
    }

    /// Zeroes the write pointer, the overflow counter and the read pointer.
    pub fn clear_fifo(&mut self) -> (r: Result<(), Error<B::Error>>)
        ensures
            final(self).device.performed(old(self).device, clear_fifo_steps(), r),
    {
        let steps = [
            Step::Write { reg: FIFO_WR_PTR, value: 0 },
            Step::Write { reg: FIFO_OVF_CNT, value: 0 },
            Step::Write { reg: FIFO_RD_PTR, value: 0 },
        ];
        proof {
            assert(steps@ =~= clear_fifo_steps());
        }
        self.device.run_steps(&steps)
    }

    /// Enables the temperature-ready interrupt, then triggers one conversion.
    /// The result is read later with `read_temperature`.
    pub fn start_temperature_measurement(&mut self) -> (r: Result<(), Error<B::Error>>)
        ensures
            final(self).device.performed(old(self).device, temperature_start_steps(), r),
    {
        let steps = [
            Step::Modify { reg: INT_ENABLE_2, keep: 0xFF, set: 0x02 },
            Step::Write { reg: TEMP_CONFIG, value: 0x01 },
        ];
        proof {
            assert(steps@ =~= temperature_start_steps());
        }
        self.device.run_steps(&steps)
    }

    /// Assigns what each of the four multi-LED time slots drives.
    pub fn set_multi_led_slots(&mut self, slot1: LedSlot, slot2: LedSlot, slot3: LedSlot, slot4: LedSlot) -> (r: Result<(), Error<B::Error>>)
        ensures
            final(self).device.performed(old(self).device, led_slot_steps(slot1, slot2, slot3, slot4), r),
    {
        let config1 = (slot2.code() << 4u8) | slot1.code();
        let config2 = (slot4.code() << 4u8) | slot3.code();
        proof {
            lemma_slot_pair(slot1, slot2);
            lemma_slot_pair(slot3, slot4);
        }
        let steps = [
            Step::Write { reg: MULTI_LED_CONFIG1, value: config1 },
            Step::Write { reg: MULTI_LED_CONFIG2, value: config2 },
        ];
        proof {
            assert(steps@ =~= led_slot_steps(slot1, slot2, slot3, slot4));
        }
        self.device.run_steps(&steps)
    }

    /// Writes the proximity interrupt threshold.
    pub fn set_proximity_threshold(&mut self, threshold: u8) -> (r: Result<(), Error<B::Error>>)
        ensures
            final(self).device.performed(
                old(self).device,
                seq![Step::Write { reg: PROX_INT_THRESH, value: threshold }],
                r,
            ),
    {
        self.device.run_step(Step::Write { reg: PROX_INT_THRESH, value: threshold })
    }
}

// ---- reads and conversions ----

/// Samples waiting in the FIFO for write pointer `wr` and read pointer `rd`:
/// the distance from `rd` to `wr` modulo the FIFO depth, with each pointer
/// taken as its low 5 bits.
pub open spec fn fifo_count(wr: u8, rd: u8) -> u8 {
    ((wr % 32 + 32 - rd % 32) % 32) as u8
}

/// An 18-bit channel from three big-endian bytes: the bits above 18 dropped.
pub open spec fn channel_value(b0: u8, b1: u8, b2: u8) -> u32 {
    ((b0 % 4) * 65536 + b1 * 256 + b2) as u32
}

/// The sample whose six bytes start at `offset` of `bytes`: infrared first,
/// then red.
pub open spec fn sample_at(bytes: Seq<u8>, offset: int) -> FifoSample {
    FifoSample {
        ir: channel_value(bytes[offset], bytes[offset + 1], bytes[offset + 2]),
        red: channel_value(bytes[offset + 3], bytes[offset + 4], bytes[offset + 5]),
    }
}

/// Die temperature in sixteenths of a degree Celsius: the integer register as
/// a signed byte, plus the low nibble of the fraction register.
pub open spec fn temperature_sixteenths(integer: u8, fraction: u8) -> int {
    (if integer < 128 { integer as int } else { integer - 256 }) * 16 + fraction % 16
}

/// ADC resolution in bits for the pulse-width field of the SpO2 register.
pub open spec fn resolution_bits(spo2_config: u8) -> u8 {
    (15 + spo2_config % 4) as u8
}

/// Reading both interrupt-status registers from index `at` of `log`.
pub open spec fn status_outcome<E>(log: Seq<Transfer<E>>, address: u8, at: int) -> Option<(int, Result<(u8, u8), Error<E>>)> {
    match register_byte(log, address, at, INT_STATUS_1) {
        Some((m, Ok(s1))) => match register_byte(log, address, m, INT_STATUS_2) {
            Some((e, Ok(s2))) => Some((e, Ok((s1, s2)))),
            Some((e, Err(x))) => Some((e, Err(x))),
            None => None,
        },
        Some((m, Err(x))) => Some((m, Err(x))),
        None => None,
    }
}

/// Reading the two FIFO pointers from index `at` of `log` and counting the
/// samples between them.
pub open spec fn count_outcome<E>(log: Seq<Transfer<E>>, address: u8, at: int) -> Option<(int, Result<u8, Error<E>>)> {
    match register_byte(log, address, at, FIFO_WR_PTR) {
        Some((m, Ok(wr))) => match register_byte(log, address, m, FIFO_RD_PTR) {
            Some((e, Ok(rd))) => Some((e, Ok(fifo_count(wr, rd)))),
            Some((e, Err(x))) => Some((e, Err(x))),
            None => None,
        },
        Some((m, Err(x))) => Some((m, Err(x))),
        None => None,
    }
}

/// The pointer-and-count check a FIFO read starts with, then `n` samples'
/// bytes read in one burst from the data register.
pub open spec fn burst_at<E>(log: Seq<Transfer<E>>, address: u8, at: int, n: nat) -> bool {
    0 <= at < log.len() && is_register_read(log[at], address, FIFO_DATA, n * 6)
}

/// The count of samples a batch read copies out: what the FIFO holds, at most
/// as many as there are slots.
pub open spec fn batch_size(available: u8, slots: nat) -> nat {
    if (available as nat) < slots { available as nat } else { slots }
}

/// Reading the temperature from index `at` of `log`: status first, and the two
/// temperature registers only if the temperature-ready flag is set.
pub open spec fn temperature_outcome<E>(log: Seq<Transfer<E>>, address: u8, at: int) -> Option<(int, Result<Option<i16>, Error<E>>)> {
    match status_outcome(log, address, at) {
        Some((m, Ok((_, s2)))) => if s2 & 0x02 == 0 {
            Some((m, Ok(None)))
        } else {
            match register_byte(log, address, m, TEMP_INTR) {
                Some((m2, Ok(integer))) => match register_byte(log, address, m2, TEMP_FRAC) {
                    Some((e, Ok(fraction))) => Some((e, Ok(Some(temperature_sixteenths(integer, fraction) as i16)))),
                    Some((e, Err(x))) => Some((e, Err(x))),
                    None => None,
                },
                Some((m2, Err(x))) => Some((m2, Err(x))),
                None => None,
            }
        },
        Some((m, Err(x))) => Some((m, Err(x))),
        None => None,
    }
}

/// Reading a FIFO sample from index `at` of `log`: the count first, and the
/// sample's six bytes only if the FIFO is not empty.
pub open spec fn sample_outcome<E>(log: Seq<Transfer<E>>, address: u8, at: int) -> Option<(int, Result<Option<FifoSample>, Error<E>>)> {
    match count_outcome(log, address, at) {
        Some((m, Ok(available))) => if available == 0 {
            Some((m, Ok(None)))
        } else if burst_at(log, address, m, 1) {
            Some((m + 1, lift_value(log[m].outcome, Some(sample_at(log[m].received, 0)))))
        } else {
            None
        },
        Some((m, Err(x))) => Some((m, Err(x))),
        None => None,
    }
}

/// A batch read from index `at` of `log` to its end, which turned the slots
/// `before` into `after` and returned `r`: the count, then, unless nothing is
/// to be copied, one burst of all the samples copied, decoded into the first
/// slots in order; the other slots keep their values.
pub open spec fn batch_outcome<E>(
    log: Seq<Transfer<E>>,
    address: u8,
    at: int,
    before: Seq<FifoSample>,
    after: Seq<FifoSample>,
    r: Result<usize, Error<E>>,
) -> bool {
    &&& after.len() == before.len()
    &&& match count_outcome(log, address, at) {
        Some((m, Err(x))) => m == log.len() && r == Err::<usize, Error<E>>(x) && after == before,
        Some((m, Ok(available))) => {
            let n = batch_size(available, before.len());
            if n == 0 {
                m == log.len() && r == Ok::<usize, Error<E>>(0) && after == before
            } else {
                &&& burst_at(log, address, m, n)
                &&& m + 1 == log.len()
                &&& match log[m].outcome {
                    Err(x) => r == Err::<usize, Error<E>>(Error::I2c(x)) && after == before,
                    Ok(()) => {
                        &&& r == Ok::<usize, Error<E>>(n as usize)
                        &&& forall|i: int| 0 <= i < n ==> #[trigger] after[i] == sample_at(log[m].received, 6 * i)
                        &&& forall|i: int| n <= i < before.len() ==> #[trigger] after[i] == before[i]
                    },
                }
            }
        },
        None => false,
    }
}

/// Reading the ADC resolution from index `at` of `log`.
pub open spec fn resolution_outcome<E>(log: Seq<Transfer<E>>, address: u8, at: int) -> Option<(int, Result<u8, Error<E>>)> {
    match register_byte(log, address, at, SPO2_CONFIG) {
        Some((e, Ok(config))) => Some((e, Ok(resolution_bits(config)))),
        Some((e, Err(x))) => Some((e, Err(x))),
        None => None,
    }
}

/// Reading the shutdown flag from index `at` of `log`.
pub open spec fn shutdown_outcome<E>(log: Seq<Transfer<E>>, address: u8, at: int) -> Option<(int, Result<bool, Error<E>>)> {
    match register_byte(log, address, at, MODE_CONFIG) {
        Some((e, Ok(config))) => Some((e, Ok(config >= 0x80))),
        Some((e, Err(x))) => Some((e, Err(x))),
        None => None,
    }
}

/// Reading the operating mode from index `at` of `log`; unknown mode bits are
/// `InvalidData`.
pub open spec fn mode_outcome<E>(log: Seq<Transfer<E>>, address: u8, at: int) -> Option<(int, Result<OperationMode, Error<E>>)> {
    match register_byte(log, address, at, MODE_CONFIG) {
        Some((e, Ok(config))) => Some(
            (
                e,
                match mode_of(config % 8) {
                    Some(mode) => Ok(mode),
                    None => Err(Error::InvalidData),
                },
            ),
        ),
        Some((e, Err(x))) => Some((e, Err(x))),
        None => None,
    }
}

/// The configuration check from index `at` of `log`: identity, not shut down,
/// a known mode, and an overflow counter of zero, in that order, stopping at
/// the first that fails.
pub open spec fn validation_outcome<E>(log: Seq<Transfer<E>>, address: u8, at: int) -> Option<(int, Result<(), Error<E>>)> {
    match step_outcome(identity_step(), address, log, at) {
        Some((mark1, Ok(()))) => match shutdown_outcome(log, address, mark1) {
            Some((mark2, Ok(true))) => Some((mark2, Err(Error::SensorSpecific(SHUTDOWN_MESSAGE)))),
            Some((mark2, Ok(false))) => match mode_outcome(log, address, mark2) {
                Some((mark3, Ok(_))) => match register_byte(log, address, mark3, FIFO_OVF_CNT) {
                    Some((mark4, Ok(overflow))) => Some(
                        (mark4, if overflow > 0 { Err(Error::SensorSpecific(OVERFLOW_MESSAGE)) } else { Ok(()) }),
                    ),
                    Some((mark4, Err(x))) => Some((mark4, Err(x))),
                    None => None,
                },
                Some((mark3, Err(x))) => Some((mark3, Err(x))),
                None => None,
            },
            Some((mark2, Err(x))) => Some((mark2, Err(x))),
            None => None,
        },
        other => other,
    }
}

/// Identity checks from index `at` of `log`, at most `attempts` of them: a
/// `NotDetected` is retried while attempts remain and becomes the
/// reset-failed error on the last; any other outcome ends the checks.
pub open spec fn identity_retry_outcome<E>(log: Seq<Transfer<E>>, address: u8, at: int, attempts: nat) -> Option<(int, Result<(), Error<E>>)>
    decreases attempts,
{
    match step_outcome(identity_step(), address, log, at) {
        Some((m, Err(Error::NotDetected))) => if attempts <= 1 {
            Some((m, Err(Error::SensorSpecific(RESET_FAILED_MESSAGE))))
        } else {
            identity_retry_outcome(log, address, m, (attempts - 1) as nat)
        },
        other => other,
    }
}

/// A forced reset from index `at` of `log`: the reset write, then up to
/// `RESET_ATTEMPTS` identity checks.
pub open spec fn force_reset_outcome<E>(log: Seq<Transfer<E>>, address: u8, at: int) -> Option<(int, Result<(), Error<E>>)> {
    match step_outcome(reset_step(), address, log, at) {
        Some((m, Ok(()))) => identity_retry_outcome(log, address, m, RESET_ATTEMPTS as nat),
        other => other,
    }
}

/// Samples waiting in the FIFO, from the raw pointer registers.
pub fn available_count(wr: u8, rd: u8) -> (r: u8)
    ensures
        r == fifo_count(wr, rd),
        r < FIFO_DEPTH,
        (rd % 32 + r) % 32 == wr % 32,
{
    let w = wr & 0x1F;
    let d = rd & 0x1F;
    proof {
        assert(wr & 0x1F == wr % 32) by (bit_vector);
        assert(rd & 0x1F == rd % 32) by (bit_vector);
    }
    if w >= d {
        w - d
    } else {
        FIFO_DEPTH - d + w
    }
}

/// One 18-bit channel from its three big-endian FIFO bytes.
pub fn decode_channel(b0: u8, b1: u8, b2: u8) -> (r: u32)
    ensures
        r == channel_value(b0, b1, b2),
        r < 0x40000,
{
    let (x, y, z) = (b0 as u32, b1 as u32, b2 as u32);
    proof {
        assert(x < 256 && y < 256 && z < 256 ==> ((x << 16u32) | (y << 8u32) | z) & 0x03FFFFu32 == (x % 4) * 65536 + y * 256 + z) by (bit_vector);
    }
    ((x << 16u32) | (y << 8u32) | z) & 0x03FFFF
}

/// Die temperature in sixteenths of a degree Celsius from the integer and
/// fraction registers.
pub fn temperature_from_registers(integer: u8, fraction: u8) -> (r: i16)
    ensures
        r == temperature_sixteenths(integer, fraction),
{
    let whole: i16 = if integer < 128 { integer as i16 } else { integer as i16 - 256 };
    let sixteenths = fraction & 0x0F;
    proof {
        assert(fraction & 0x0F == fraction % 16) by (bit_vector);
    }
    whole * 16 + sixteenths as i16
}

/// The sample whose six bytes start at `offset`.
fn decode_sample(bytes: &Vec<u8>, offset: usize) -> (r: FifoSample)
    requires
        offset + 6 <= bytes.len(),
    ensures
        r == sample_at(bytes@, offset as int),
{
    FifoSample {
        ir: decode_channel(bytes[offset], bytes[offset + 1], bytes[offset + 2]),
        red: decode_channel(bytes[offset + 3], bytes[offset + 4], bytes[offset + 5]),
    }
}

impl<B: I2cBus> Max30102<B> {
    /// Reads interrupt status registers 1 and 2. On the device this clears
    /// the pending flags.
    pub fn read_interrupt_status(&mut self) -> (r: Result<(u8, u8), Error<B::Error>>)
        ensures
            final(self).device.extends(old(self).device),
            status_outcome(final(self).device.log(), old(self).device.address(), old(self).device.log().len() as int)
                == Some((final(self).device.log().len() as int, r)),
    {
        let status1 = match self.device.read_register(INT_STATUS_1) {
            Ok(v) => v,
            Err(e) => return Err(e),
        };
        let ghost mid = self.device;
        let r = match self.device.read_register(INT_STATUS_2) {
            Ok(v) => Ok((status1, v)),
            Err(e) => Err(e),
        };
        proof {
            lemma_extends_trans(old(self).device, mid, self.device);
        }
        r
    }

    /// Samples waiting in the FIFO, from its write and read pointers.
    pub fn get_available_sample_count(&mut self) -> (r: Result<u8, Error<B::Error>>)
        ensures
            final(self).device.extends(old(self).device),
            count_outcome(final(self).device.log(), old(self).device.address(), old(self).device.log().len() as int)
                == Some((final(self).device.log().len() as int, r)),
    {
        let wr = match self.device.read_register(FIFO_WR_PTR) {
            Ok(v) => v,
            Err(e) => return Err(e),
        };
        let ghost mid = self.device;
        let r = match self.device.read_register(FIFO_RD_PTR) {
            Ok(rd) => Ok(available_count(wr, rd)),
            Err(e) => Err(e),
        };
        proof {
            lemma_extends_trans(old(self).device, mid, self.device);
        }
        r
    }

    /// Reads one sample from the FIFO; `None` when it is empty.
    pub fn read_fifo_sample(&mut self) -> (r: Result<Option<FifoSample>, Error<B::Error>>)
        ensures
            final(self).device.extends(old(self).device),
            sample_outcome(final(self).device.log(), old(self).device.address(), old(self).device.log().len() as int)
                == Some((final(self).device.log().len() as int, r)),
    {
        let available = match self.get_available_sample_count() {
            Ok(n) => n,
            Err(e) => return Err(e),
        };
        if available == 0 {
            return Ok(None);
        }
        let ghost mid = self.device;
        let r = match self.device.read_registers(FIFO_DATA, SAMPLE_BYTES) {
            Ok(bytes) => Ok(Some(decode_sample(&bytes, 0))),
            Err(e) => Err(e),
        };
        proof {
            lemma_extends_trans(old(self).device, mid, self.device);
        }
        r
    }

    /// Copies as many waiting samples as fit into `samples`, reading them in
    /// one burst, and returns how many it copied.
    ///
    /// The burst is bounded by `MAX_BURST_BYTES`, a full FIFO; since the
    /// pointers never show more than 31 waiting samples, the bound is never
    /// exceeded and the `ConfigError` it guards is never returned.
    pub fn read_fifo_batch(&mut self, samples: &mut [FifoSample]) -> (r: Result<usize, Error<B::Error>>)
        ensures
            final(self).device.extends(old(self).device),
            batch_outcome(
                final(self).device.log(),
                old(self).device.address(),
                old(self).device.log().len() as int,
                old(samples)@,
                final(samples)@,
                r,
            ),
    {
        let available = match self.get_available_sample_count() {
            Ok(n) => n,
            Err(e) => return Err(e),
        };
        let to_read: usize = if (available as usize) < samples.len() { available as usize } else { samples.len() };
        if to_read == 0 {
            return Ok(0);
        }
        let byte_count = to_read * SAMPLE_BYTES;
        // Unreachable: `to_read` is below 32.
        if byte_count > MAX_BURST_BYTES {
            return Err(Error::ConfigError);
        }
        let ghost mid = self.device;
        let burst = self.device.read_registers(FIFO_DATA, byte_count);
        proof {
            lemma_extends_trans(old(self).device, mid, self.device);
        }
        let bytes = match burst {
            Ok(b) => b,
            Err(e) => return Err(e),
        };
        let mut i: usize = 0;
        while i < to_read
            invariant
                to_read <= samples@.len(),
                to_read < 32,
                samples@.len() == old(samples)@.len(),
                bytes@.len() == to_read * 6,
                i <= to_read,
                forall|j: int| 0 <= j < i ==> #[trigger] samples@[j] == sample_at(bytes@, 6 * j),
                forall|j: int| i <= j < samples@.len() ==> #[trigger] samples@[j] == old(samples)@[j],
            decreases to_read - i,
        {
            proof {
                assert(i * 6 + 6 <= to_read * 6) by (nonlinear_arith)
                    requires
                        i < to_read,
                ;
            }
            let sample = decode_sample(&bytes, i * SAMPLE_BYTES);
            samples[i] = sample;
            i += 1;
        }
        Ok(to_read)
    }

    /// Polls the temperature-ready flag; if set, reads the temperature, in
    /// sixteenths of a degree Celsius. `None` means no conversion has finished.
    pub fn read_temperature(&mut self) -> (r: Result<Option<i16>, Error<B::Error>>)
        ensures
            final(self).device.extends(old(self).device),
            temperature_outcome(final(self).device.log(), old(self).device.address(), old(self).device.log().len() as int)
                == Some((final(self).device.log().len() as int, r)),
    {
        let (_, status2) = match self.read_interrupt_status() {
            Ok(s) => s,
            Err(e) => return Err(e),
        };
        if status2 & 0x02 == 0 {
            return Ok(None);
        }
        let ghost after_status = self.device;
        let integer = self.device.read_register(TEMP_INTR);
        proof {
            lemma_extends_trans(old(self).device, after_status, self.device);
        }
        let integer = match integer {
            Ok(v) => v,
            Err(e) => return Err(e),
        };
        let ghost after_integer = self.device;
        let r = match self.device.read_register(TEMP_FRAC) {
            Ok(fraction) => Ok(Some(temperature_from_registers(integer, fraction))),
            Err(e) => Err(e),
        };
        proof {
            lemma_extends_trans(old(self).device, after_integer, self.device);
        }
        r
    }

    /// Full SpO2 set-up; stops at the first step that fails, with no rollback.
    pub fn initialize_sensor(&mut self) -> (r: Result<(), Error<B::Error>>)
        ensures
            final(self).device.performed(old(self).device, spo2_init_steps(), r),
    {
        let steps = [
            Step::Expect { reg: PART_ID, value: EXPECTED_PART_ID },
            Step::Write { reg: MODE_CONFIG, value: 0x40 },
            Step::Write { reg: FIFO_WR_PTR, value: 0 },
            Step::Write { reg: FIFO_OVF_CNT, value: 0 },
            Step::Write { reg: FIFO_RD_PTR, value: 0 },
            Step::Modify { reg: MODE_CONFIG, keep: 0xF8, set: 0x03 },
            Step::Modify { reg: SPO2_CONFIG, keep: 0x9F, set: 0x20 },
            Step::Modify { reg: SPO2_CONFIG, keep: 0xE3, set: 0x04 },
            Step::Modify { reg: SPO2_CONFIG, keep: 0xFC, set: 0x03 },
            Step::Modify { reg: FIFO_CONFIG, keep: 0x1F, set: 0x40 },
            Step::Modify { reg: FIFO_CONFIG, keep: 0xFF, set: 0x10 },
            Step::Modify { reg: FIFO_CONFIG, keep: 0xF0, set: 15 },
            Step::Write { reg: LED1_PA, value: 0x1F },
            Step::Write { reg: LED2_PA, value: 0x1F },
            Step::Modify { reg: INT_ENABLE_1, keep: 0xFF, set: 0x80 },
            Step::Modify { reg: INT_ENABLE_1, keep: 0xFF, set: 0x40 },
        ];
        proof {
            assert(steps@ =~= spo2_init_steps());
        }
        self.device.run_steps(&steps)
    }

    /// Heart-rate set-up; stops at the first step that fails, with no rollback.
    pub fn initialize_heart_rate_mode(&mut self) -> (r: Result<(), Error<B::Error>>)
        ensures
            final(self).device.performed(old(self).device, heart_rate_init_steps(), r),
    {
        let steps = [
            Step::Expect { reg: PART_ID, value: EXPECTED_PART_ID },
            Step::Write { reg: MODE_CONFIG, value: 0x40 },
            Step::Write { reg: FIFO_WR_PTR, value: 0 },
            Step::Write { reg: FIFO_OVF_CNT, value: 0 },
            Step::Write { reg: FIFO_RD_PTR, value: 0 },
            Step::Modify { reg: MODE_CONFIG, keep: 0xF8, set: 0x02 },
            Step::Modify { reg: SPO2_CONFIG, keep: 0x9F, set: 0x20 },
            Step::Modify { reg: SPO2_CONFIG, keep: 0xE3, set: 0x04 },
            Step::Modify { reg: SPO2_CONFIG, keep: 0xFC, set: 0x03 },
            Step::Modify { reg: FIFO_CONFIG, keep: 0x1F, set: 0x40 },
            Step::Write { reg: LED2_PA, value: 0x1F },
            Step::Modify { reg: INT_ENABLE_1, keep: 0xFF, set: 0x80 },
        ];
        proof {
            assert(steps@ =~= heart_rate_init_steps());
        }
        self.device.run_steps(&steps)
    }

    /// ADC resolution in bits (15 to 18), from the pulse-width field.
    pub fn get_adc_resolution(&mut self) -> (r: Result<u8, Error<B::Error>>)
        ensures
            final(self).device.extends(old(self).device),
            resolution_outcome(final(self).device.log(), old(self).device.address(), old(self).device.log().len() as int)
                == Some((final(self).device.log().len() as int, r)),
    {
        let r = match self.device.read_register(SPO2_CONFIG) {
            Ok(config) => {
                proof {
                    assert(config & 0x03 == config % 4) by (bit_vector);
                }
                match config & 0x03 {
                    0 => Ok(15),
                    1 => Ok(16),
                    2 => Ok(17),
                    3 => Ok(18),
                    _ => Err(Error::InvalidData),
                }
            },
            Err(e) => Err(e),
        };
        r
    }

    /// Whether the shutdown bit (7) of the mode register is set.
    pub fn is_shutdown(&mut self) -> (r: Result<bool, Error<B::Error>>)
        ensures
            final(self).device.extends(old(self).device),
            shutdown_outcome(final(self).device.log(), old(self).device.address(), old(self).device.log().len() as int)
                == Some((final(self).device.log().len() as int, r)),
    {
        let r = match self.device.read_register(MODE_CONFIG) {
            Ok(config) => {
                proof {
                    assert((config & 0x80 != 0) == (config >= 0x80)) by (bit_vector);
                }
                Ok((config & 0x80) != 0)
            },
            Err(e) => Err(e),
        };
        r
    }

    /// The operating mode from the mode bits; unknown bits are `InvalidData`.
    pub fn get_operation_mode(&mut self) -> (r: Result<OperationMode, Error<B::Error>>)
        ensures
            final(self).device.extends(old(self).device),
            mode_outcome(final(self).device.log(), old(self).device.address(), old(self).device.log().len() as int)
                == Some((final(self).device.log().len() as int, r)),
    {
        let r = match self.device.read_register(MODE_CONFIG) {
            Ok(config) => {
                proof {
                    assert(config & 0x07 == config % 8) by (bit_vector);
                }
                match config & 0x07 {
                    0x02 => Ok(OperationMode::HeartRate),
                    0x03 => Ok(OperationMode::SpO2),
                    0x07 => Ok(OperationMode::MultiLed),
                    _ => Err(Error::InvalidData),
                }
            },
            Err(e) => Err(e),
        };
        r
    }

    /// Composite check: identity, not shut down, a known operating mode, and
    /// no FIFO overflow. Reads only; repairs nothing.
    pub fn validate_configuration(&mut self) -> (r: Result<(), Error<B::Error>>)
        ensures
            final(self).device.extends(old(self).device),
            validation_outcome(final(self).device.log(), old(self).device.address(), old(self).device.log().len() as int)
                == Some((final(self).device.log().len() as int, r)),
    {
        let ghost start = old(self).device.log().len() as int;
        let ghost address = self.device.address();
        let identity = self.verify_identity();
        proof {
            lemma_run_outcome_single(identity_step(), address, self.device.log(), start);
        }
        if identity.is_err() {
            return identity;
        }
        let ghost after_identity = self.device;
        let shutdown = self.is_shutdown();
        proof {
            lemma_extends_trans(old(self).device, after_identity, self.device);
            lemma_extends_agrees(after_identity, self.device);
        }
        match shutdown {
            Err(e) => return Err(e),
            Ok(true) => return Err(Error::SensorSpecific(SHUTDOWN_MESSAGE)),
            Ok(false) => {},
        }
        let ghost after_shutdown = self.device;
        let mode = self.get_operation_mode();
        proof {
            lemma_extends_trans(old(self).device, after_shutdown, self.device);
            lemma_extends_agrees(after_shutdown, self.device);
        }
        if let Err(e) = mode {
            return Err(e);
        }
        let ghost after_mode = self.device;
        let overflow = self.device.read_register(FIFO_OVF_CNT);
        proof {
            lemma_extends_trans(old(self).device, after_mode, self.device);
            lemma_extends_agrees(after_mode, self.device);
        }
        match overflow {
            Err(e) => Err(e),
            Ok(count) => if count > 0 {
                Err(Error::SensorSpecific(OVERFLOW_MESSAGE))
            } else {
                Ok(())
            },
        }
    }

    /// Identity checks, at most `attempts` of them, retrying on `NotDetected`.
    fn verify_identity_retrying(&mut self, attempts: u8) -> (r: Result<(), Error<B::Error>>)
        requires
            attempts >= 1,
        ensures
            final(self).device.extends(old(self).device),
            identity_retry_outcome(final(self).device.log(), old(self).device.address(), old(self).device.log().len() as int, attempts as nat)
                == Some((final(self).device.log().len() as int, r)),
        decreases attempts,
    {
        let ghost start = old(self).device.log().len() as int;
        let ghost address = self.device.address();
        let r = self.verify_identity();
        proof {
            lemma_run_outcome_single(identity_step(), address, self.device.log(), start);
        }
        match r {
            Err(Error::NotDetected) => {
                if attempts <= 1 {
                    return Err(Error::SensorSpecific(RESET_FAILED_MESSAGE));
                }
                let ghost mid = self.device.log();
                let again = self.verify_identity_retrying(attempts - 1);
                proof {
                    let end = self.device.log();
                    lemma_step_outcome_extends(identity_step(), address, mid, end, start);
                    lemma_prefix_trans(old(self).device.log(), mid, end);
                }
                again
            },
            other => other,
        }
    }

    /// Resets the device, then checks its identity up to `RESET_ATTEMPTS`
    /// times, tolerating only `NotDetected` between attempts.
    pub fn force_reset(&mut self) -> (r: Result<(), Error<B::Error>>)
        ensures
            final(self).device.extends(old(self).device),
            force_reset_outcome(final(self).device.log(), old(self).device.address(), old(self).device.log().len() as int)
                == Some((final(self).device.log().len() as int, r)),
    {
        let ghost start = old(self).device.log().len() as int;
        let ghost address = self.device.address();
        let reset = self.reset();
        proof {
            lemma_run_outcome_single(reset_step(), address, self.device.log(), start);
        }
        if reset.is_err() {
            return reset;
        }
        let ghost mid = self.device.log();
        let r = self.verify_identity_retrying(RESET_ATTEMPTS);
        proof {
            let end = self.device.log();
            lemma_step_outcome_extends(reset_step(), address, mid, end, start);
            lemma_prefix_trans(old(self).device.log(), mid, end);
        }
        r
    }
}

/// Shutting down and then waking a mode register that held `value` keeps
/// every bit but the shutdown bit, which ends clear; a register that was
/// running gets back exactly its old value.
pub proof fn lemma_shutdown_wakeup_round_trip(value: u8)
    ensures
        written_value(wakeup_step(), written_value(shutdown_step(), value)) == value & 0x7F,
        written_value(shutdown_step(), value) & 0x80 == 0x80,
        value & 0x80 == 0 ==> written_value(wakeup_step(), written_value(shutdown_step(), value)) == value,
{
    assert(((value & 0xFF) | 0x80) & 0x7F | 0x00 == value & 0x7F) by (bit_vector);
    assert(((value & 0xFF) | 0x80) & 0x80 == 0x80) by (bit_vector);
    assert(value & 0x80 == 0 ==> value & 0x7F == value) by (bit_vector);
}

/// A threshold up to 15 lands in the low nibble of the FIFO register and
/// the high nibble keeps what it held.
pub proof fn lemma_threshold_field(threshold: u8, value: u8)
    requires
        threshold <= 15,
    ensures
        written_value(threshold_step(threshold), value) & 0x0F == threshold,
        written_value(threshold_step(threshold), value) & 0xF0 == value & 0xF0,
{
    assert(threshold <= 15 ==> ((value & 0xF0) | threshold) & 0x0F == threshold) by (bit_vector);
    assert(threshold <= 15 ==> ((value & 0xF0) | threshold) & 0xF0 == value & 0xF0) by (bit_vector);
}

/// The ADC-range, sampling-rate and pulse-width fields of the SpO2 register
/// are disjoint: setting two of them gives the same register in either order,
/// and each setting leaves the other fields as they were.
pub proof fn lemma_spo2_fields_commute(value: u8, range: AdcRange, rate: SamplingRate, width: LedPulseWidth)
    ensures
        written_value(adc_range_step(range), written_value(sampling_rate_step(rate), value))
            == written_value(sampling_rate_step(rate), written_value(adc_range_step(range), value)),
        written_value(adc_range_step(range), written_value(pulse_width_step(width), value))
            == written_value(pulse_width_step(width), written_value(adc_range_step(range), value)),
        written_value(sampling_rate_step(rate), written_value(pulse_width_step(width), value))
            == written_value(pulse_width_step(width), written_value(sampling_rate_step(rate), value)),
        written_value(adc_range_step(range), value) & 0x9F == value & 0x9F,
        written_value(sampling_rate_step(rate), value) & 0xE3 == value & 0xE3,
        written_value(pulse_width_step(width), value) & 0xFC == value & 0xFC,
{
    let a = range.code();
    let s = rate.code();
    let w = width.code();
    let a5 = (a * 32) as u8;
    let s2 = (s * 4) as u8;
    assert(a < 4 && s < 8 && w < 4);
    assert(a < 4 ==> ((a * 32) as u8) & 0x9F == 0 && ((a * 32) as u8) & 0x60 == (a * 32) as u8) by (bit_vector);
    assert(s < 8 ==> ((s * 4) as u8) & 0xE3 == 0 && ((s * 4) as u8) & 0x1C == (s * 4) as u8) by (bit_vector);
    assert(a5 & 0x9F == 0 && a5 & 0x60 == a5 && s2 & 0xE3 == 0 && s2 & 0x1C == s2 && w < 4 ==> {
        &&& ((((value & 0xE3) | s2) & 0x9F) | a5) == ((((value & 0x9F) | a5) & 0xE3) | s2)
        &&& ((((value & 0xFC) | w) & 0x9F) | a5) == ((((value & 0x9F) | a5) & 0xFC) | w)
        &&& ((((value & 0xFC) | w) & 0xE3) | s2) == ((((value & 0xE3) | s2) & 0xFC) | w)
        &&& ((value & 0x9F) | a5) & 0x9F == value & 0x9F
        &&& ((value & 0xE3) | s2) & 0xE3 == value & 0xE3
        &&& ((value & 0xFC) | w) & 0xFC == value & 0xFC
    }) by (bit_vector);
}

/// The nibble packing of two slot codes, as shifts and as arithmetic.
proof fn lemma_slot_pair(low: LedSlot, high: LedSlot)
    ensures
        (high.code() << 4u8) | low.code() == slot_pair(low, high),
{
    let l = low.code();
    let h = high.code();
    assert(l < 8 && h < 8);
    assert(l < 8 && h < 8 ==> (h << 4u8) | l == h * 16 + l) by (bit_vector);
}

} // verus!
