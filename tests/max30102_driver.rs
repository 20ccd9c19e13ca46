use hayasen::max30102::{
    available_count, decode_channel, temperature_from_registers, AdcRange, FifoSample, InterruptSource,
    LedPulseWidth, LedSlot, Max30102, OperationMode, SampleAveraging, SamplingRate, DEFAULT_ADDRESS, FIFO_CONFIG,
    FIFO_DATA, FIFO_OVF_CNT, FIFO_RD_PTR, FIFO_WR_PTR, INT_ENABLE_1, INT_ENABLE_2, INT_STATUS_1, INT_STATUS_2,
    MODE_CONFIG, OVERFLOW_MESSAGE, PART_ID, RESET_FAILED_MESSAGE, SHUTDOWN_MESSAGE, SPO2_CONFIG, TEMP_FRAC,
    TEMP_INTR,
};
use hayasen::max30102_hayasen;
use hayasen::{Error, I2cBus};
use std::collections::{HashMap, VecDeque};

#[derive(Clone, Debug, PartialEq, Eq)]
struct BusFault;

/// A register-file stand-in for the device, recording every transfer.
#[allow(dead_code)]
struct MockBus {
    regs: [u8; 256],
    scripted: HashMap<u8, VecDeque<u8>>,
    fifo: VecDeque<u8>,
    fifo_register: Option<u8>,
    selected: u8,
    addresses: Vec<u8>,
    writes: Vec<Vec<u8>>,
    reads: Vec<(u8, usize)>,
    fail_at: Option<usize>,
    transfers: usize,
}

#[allow(dead_code)]
impl MockBus {
    fn new() -> Self {
        MockBus {
            regs: [0u8; 256],
            scripted: HashMap::new(),
            fifo: VecDeque::new(),
            fifo_register: None,
            selected: 0,
            addresses: Vec::new(),
            writes: Vec::new(),
            reads: Vec::new(),
            fail_at: None,
            transfers: 0,
        }
    }

    fn with(mut self, reg: u8, value: u8) -> Self {
        self.regs[reg as usize] = value;
        self
    }

    fn script(mut self, reg: u8, values: &[u8]) -> Self {
        self.scripted.insert(reg, values.iter().copied().collect());
        self
    }

    fn next_value(&mut self, reg: u8) -> u8 {
        if let Some(queue) = self.scripted.get_mut(&reg) {
            if let Some(v) = queue.pop_front() {
                return v;
            }
        }
        self.regs[reg as usize]
    }

    fn tick(&mut self, address: u8) -> Result<(), BusFault> {
        let index = self.transfers;
        self.transfers += 1;
        self.addresses.push(address);
        if self.fail_at == Some(index) {
            Err(BusFault)
        } else {
            Ok(())
        }
    }
}

impl I2cBus for MockBus {
    type Error = BusFault;

    fn write(&mut self, address: u8, bytes: &[u8]) -> Result<(), BusFault> {
        self.tick(address)?;
        self.writes.push(bytes.to_vec());
        if bytes.len() == 1 {
            self.selected = bytes[0];
        } else {
            self.regs[bytes[0] as usize] = bytes[1];
        }
        Ok(())
    }

    fn read(&mut self, address: u8, buffer: &mut [u8]) -> Result<(), BusFault> {
        self.tick(address)?;
        let reg = self.selected;
        for b in buffer.iter_mut() {
            *b = self.next_value(reg);
        }
        Ok(())
    }

    fn write_read(&mut self, address: u8, bytes: &[u8], buffer: &mut [u8]) -> Result<(), BusFault> {
        self.tick(address)?;
        let reg = bytes[0];
        self.reads.push((reg, buffer.len()));
        if self.fifo_register == Some(reg) {
            for b in buffer.iter_mut() {
                *b = self.fifo.pop_front().unwrap_or(0);
            }
        } else {
            for (i, b) in buffer.iter_mut().enumerate() {
                *b = self.next_value(reg.wrapping_add(i as u8));
            }
        }
        Ok(())
    }
}

const ADDR: u8 = 0x57;

fn sensor(bus: MockBus) -> Max30102<MockBus> {
    Max30102::new(bus, ADDR)
}

fn fifo_bus(wr: u8, rd: u8, data: &[u8]) -> MockBus {
    let mut bus = MockBus::new().with(FIFO_WR_PTR, wr).with(FIFO_RD_PTR, rd);
    bus.fifo_register = Some(FIFO_DATA);
    bus.fifo = data.iter().copied().collect();
    bus
}

fn blank() -> FifoSample {
    FifoSample { red: 7, ir: 7 }
}

#[test]
fn identity_accepts_expected_part_id() {
    let mut s = sensor(MockBus::new().with(PART_ID, 0x15));
    assert_eq!(s.verify_identity(), Ok(()));
    let bus = s.release();
    assert_eq!(bus.reads, vec![(PART_ID, 1)]);
    assert_eq!(bus.addresses, vec![ADDR]);
}

#[test]
fn identity_rejects_every_other_byte() {
    for id in 0u16..=255 {
        let id = id as u8;
        if id == 0x15 {
            continue;
        }
        let mut s = sensor(MockBus::new().with(PART_ID, id));
        assert_eq!(s.verify_identity(), Err(Error::NotDetected));
    }
}

#[test]
fn identity_passes_bus_failure_through() {
    let mut bus = MockBus::new().with(PART_ID, 0x15);
    bus.fail_at = Some(0);
    let mut s = sensor(bus);
    assert_eq!(s.verify_identity(), Err(Error::I2c(BusFault)));
}

#[test]
fn default_address_is_used() {
    let mut s = Max30102::new_default(MockBus::new().with(PART_ID, 0x15));
    assert_eq!(DEFAULT_ADDRESS, 0x57);
    assert_eq!(s.verify_identity(), Ok(()));
    assert_eq!(s.release().addresses, vec![0x57]);
}

#[test]
fn reset_writes_reset_bit() {
    let mut s = sensor(MockBus::new());
    assert_eq!(s.reset(), Ok(()));
    assert_eq!(s.release().writes, vec![vec![MODE_CONFIG, 0x40]]);
}

#[test]
fn shutdown_and_wakeup_touch_only_bit_seven() {
    let mut s = sensor(MockBus::new().with(MODE_CONFIG, 0x03));
    assert_eq!(s.shutdown(), Ok(()));
    assert_eq!(s.is_shutdown(), Ok(true));
    assert_eq!(s.wakeup(), Ok(()));
    assert_eq!(s.is_shutdown(), Ok(false));
    let bus = s.release();
    assert_eq!(bus.writes, vec![vec![MODE_CONFIG, 0x83], vec![MODE_CONFIG, 0x03]]);
    assert_eq!(bus.regs[MODE_CONFIG as usize], 0x03);
}

#[test]
fn operation_mode_replaces_low_three_bits() {
    let mut s = sensor(MockBus::new().with(MODE_CONFIG, 0xC5));
    assert_eq!(s.set_operation_mode(OperationMode::MultiLed), Ok(()));
    assert_eq!(s.get_operation_mode(), Ok(OperationMode::MultiLed));
    assert_eq!(s.set_operation_mode(OperationMode::HeartRate), Ok(()));
    assert_eq!(s.release().regs[MODE_CONFIG as usize], 0xC2);
}

#[test]
fn spo2_fields_are_independent_of_order() {
    let mut a = sensor(MockBus::new().with(SPO2_CONFIG, 0x80));
    a.set_adc_range(AdcRange::Range4096na).unwrap();
    a.set_sampling_rate(SamplingRate::Rate100).unwrap();
    a.set_pulse_width(LedPulseWidth::Width411us).unwrap();
    let mut b = sensor(MockBus::new().with(SPO2_CONFIG, 0x80));
    b.set_pulse_width(LedPulseWidth::Width411us).unwrap();
    b.set_sampling_rate(SamplingRate::Rate100).unwrap();
    b.set_adc_range(AdcRange::Range4096na).unwrap();
    assert_eq!(a.release().regs[SPO2_CONFIG as usize], 0xA7);
    assert_eq!(b.release().regs[SPO2_CONFIG as usize], 0xA7);
}

#[test]
fn spo2_fields_replace_previous_values() {
    let mut s = sensor(MockBus::new().with(SPO2_CONFIG, 0xFF));
    s.set_adc_range(AdcRange::Range2048na).unwrap();
    assert_eq!(s.device.bus().regs[SPO2_CONFIG as usize], 0x9F);
    s.set_sampling_rate(SamplingRate::Rate3200).unwrap();
    assert_eq!(s.device.bus().regs[SPO2_CONFIG as usize], 0x9F);
    s.set_sampling_rate(SamplingRate::Rate50).unwrap();
    assert_eq!(s.device.bus().regs[SPO2_CONFIG as usize], 0x83);
    s.set_pulse_width(LedPulseWidth::Width69us).unwrap();
    assert_eq!(s.device.bus().regs[SPO2_CONFIG as usize], 0x80);
}

#[test]
fn sample_averaging_sets_top_three_bits() {
    let mut s = sensor(MockBus::new().with(FIFO_CONFIG, 0x1F));
    assert_eq!(s.set_sample_averaging(SampleAveraging::Average32), Ok(()));
    assert_eq!(s.device.bus().regs[FIFO_CONFIG as usize], 0xBF);
    assert_eq!(s.set_sample_averaging(SampleAveraging::NoAveraging), Ok(()));
    assert_eq!(s.device.bus().regs[FIFO_CONFIG as usize], 0x1F);
}

#[test]
fn rollover_sets_and_clears_bit_four() {
    let mut s = sensor(MockBus::new().with(FIFO_CONFIG, 0x0F));
    s.enable_fifo_rollover(true).unwrap();
    assert_eq!(s.device.bus().regs[FIFO_CONFIG as usize], 0x1F);
    s.enable_fifo_rollover(false).unwrap();
    assert_eq!(s.device.bus().regs[FIFO_CONFIG as usize], 0x0F);
}

#[test]
fn threshold_above_fifteen_is_refused_without_transfer() {
    let mut s = sensor(MockBus::new().with(FIFO_CONFIG, 0xA0));
    assert_eq!(s.set_fifo_almost_full_threshold(16), Err(Error::ConfigError));
    let bus = s.release();
    assert_eq!(bus.transfers, 0);
    assert!(bus.writes.is_empty());
}

#[test]
fn threshold_fifteen_merges_low_nibble() {
    let mut s = sensor(MockBus::new().with(FIFO_CONFIG, 0xA3));
    assert_eq!(s.set_fifo_almost_full_threshold(15), Ok(()));
    let bus = s.release();
    assert_eq!(bus.reads, vec![(FIFO_CONFIG, 1)]);
    assert_eq!(bus.writes, vec![vec![FIFO_CONFIG, 0xAF]]);
}

#[test]
fn led_amplitude_checks_led_index() {
    let mut s = sensor(MockBus::new());
    assert_eq!(s.set_led_pulse_amplitude(3, 0x20), Err(Error::ConfigError));
    assert_eq!(s.set_led_pulse_amplitude(0, 0x20), Err(Error::ConfigError));
    assert_eq!(s.device.bus().transfers, 0);
    assert_eq!(s.set_led_pulse_amplitude(1, 0x24), Ok(()));
    assert_eq!(s.set_led_pulse_amplitude(2, 0x7F), Ok(()));
    assert_eq!(s.set_pilot_led_amplitude(0x11), Ok(()));
    assert_eq!(s.release().writes, vec![vec![0x0C, 0x24], vec![0x0D, 0x7F], vec![0x10, 0x11]]);
}

#[test]
fn interrupt_enable_and_disable_touch_one_bit() {
    let mut s = sensor(MockBus::new().with(INT_ENABLE_1, 0x41).with(INT_ENABLE_2, 0x00));
    s.enable_interrupt(InterruptSource::TemperatureReady).unwrap();
    s.enable_interrupt(InterruptSource::FifoAlmostFull).unwrap();
    assert_eq!(s.device.bus().regs[INT_ENABLE_2 as usize], 0x02);
    assert_eq!(s.device.bus().regs[INT_ENABLE_1 as usize], 0xC1);
    s.disable_interrupt(InterruptSource::NewDataReady).unwrap();
    s.disable_interrupt(InterruptSource::PowerReady).unwrap();
    assert_eq!(s.device.bus().regs[INT_ENABLE_1 as usize], 0x80);
    s.enable_interrupt(InterruptSource::AlcOverflow).unwrap();
    assert_eq!(s.device.bus().regs[INT_ENABLE_1 as usize], 0xA0);
}

#[test]
fn interrupt_status_reads_both_registers() {
    let mut s = sensor(MockBus::new().with(INT_STATUS_1, 0x80).with(INT_STATUS_2, 0x02));
    assert_eq!(s.read_interrupt_status(), Ok((0x80, 0x02)));
    assert_eq!(s.release().reads, vec![(INT_STATUS_1, 1), (INT_STATUS_2, 1)]);
}

#[test]
fn fifo_count_wraps_around() {
    assert_eq!(available_count(3, 30), 5);
    assert_eq!(available_count(10, 2), 8);
    assert_eq!(available_count(7, 7), 0);
    assert_eq!(available_count(0, 31), 1);
    assert_eq!(available_count(31, 0), 31);
    assert_eq!(available_count(0xE3, 0x1E), 5);
}

#[test]
fn sample_count_reads_both_pointers() {
    let mut s = sensor(MockBus::new().with(FIFO_WR_PTR, 3).with(FIFO_RD_PTR, 30));
    assert_eq!(s.get_available_sample_count(), Ok(5));
    assert_eq!(s.release().reads, vec![(FIFO_WR_PTR, 1), (FIFO_RD_PTR, 1)]);
}

#[test]
fn decode_masks_to_eighteen_bits() {
    assert_eq!(decode_channel(0xFF, 0xFF, 0xFF), 0x3FFFF);
    assert_eq!(decode_channel(0x01, 0x23, 0x45), 0x12345);
    assert_eq!(decode_channel(0xFC, 0x00, 0x01), 0x00001);
}

#[test]
fn empty_fifo_gives_no_sample() {
    let mut s = sensor(fifo_bus(4, 4, &[1, 2, 3, 4, 5, 6]));
    assert_eq!(s.read_fifo_sample(), Ok(None));
    assert_eq!(s.release().reads, vec![(FIFO_WR_PTR, 1), (FIFO_RD_PTR, 1)]);
}

#[test]
fn fifo_sample_is_infrared_then_red() {
    let mut s = sensor(fifo_bus(5, 4, &[0xFF, 0xFF, 0xFF, 0x01, 0x02, 0x03]));
    assert_eq!(s.read_fifo_sample(), Ok(Some(FifoSample { ir: 0x3FFFF, red: 0x10203 })));
    assert_eq!(s.release().reads, vec![(FIFO_WR_PTR, 1), (FIFO_RD_PTR, 1), (FIFO_DATA, 6)]);
}

#[test]
fn batch_reads_only_what_is_available() {
    let data: Vec<u8> = (0u8..60).collect();
    let mut s = sensor(fifo_bus(5, 0, &data));
    let mut slots = [blank(); 40];
    assert_eq!(s.read_fifo_batch(&mut slots), Ok(5));
    for i in 0..5 {
        let b = 6 * i as u32;
        assert_eq!(slots[i].ir, ((b << 16) | ((b + 1) << 8) | (b + 2)) & 0x3FFFF);
        assert_eq!(slots[i].red, (((b + 3) << 16) | ((b + 4) << 8) | (b + 5)) & 0x3FFFF);
    }
    for slot in &slots[5..] {
        assert_eq!(*slot, blank());
    }
    assert_eq!(s.release().reads, vec![(FIFO_WR_PTR, 1), (FIFO_RD_PTR, 1), (FIFO_DATA, 30)]);
}

#[test]
fn batch_reads_only_what_fits() {
    let data: Vec<u8> = vec![0xFF; 60];
    let mut s = sensor(fifo_bus(12, 2, &data));
    let mut slots = [blank(); 2];
    assert_eq!(s.read_fifo_batch(&mut slots), Ok(2));
    assert_eq!(slots, [FifoSample { red: 0x3FFFF, ir: 0x3FFFF }; 2]);
    assert_eq!(s.release().reads, vec![(FIFO_WR_PTR, 1), (FIFO_RD_PTR, 1), (FIFO_DATA, 12)]);
}

#[test]
fn batch_with_nothing_to_copy_reads_no_data() {
    let mut s = sensor(fifo_bus(9, 9, &[1; 12]));
    let mut slots = [blank(); 4];
    assert_eq!(s.read_fifo_batch(&mut slots), Ok(0));
    let mut none: [FifoSample; 0] = [];
    assert_eq!(s.read_fifo_batch(&mut none), Ok(0));
    assert_eq!(slots, [blank(); 4]);
    assert!(s.release().reads.iter().all(|r| r.0 != FIFO_DATA));
}

#[test]
fn batch_failure_leaves_slots_alone() {
    let mut bus = fifo_bus(3, 0, &[1; 18]);
    bus.fail_at = Some(2);
    let mut s = sensor(bus);
    let mut slots = [blank(); 4];
    assert_eq!(s.read_fifo_batch(&mut slots), Err(Error::I2c(BusFault)));
    assert_eq!(slots, [blank(); 4]);
}

#[test]
fn clear_fifo_zeroes_three_registers() {
    let mut s = sensor(MockBus::new().with(FIFO_WR_PTR, 9).with(FIFO_OVF_CNT, 2).with(FIFO_RD_PTR, 4));
    assert_eq!(s.clear_fifo(), Ok(()));
    assert_eq!(
        s.release().writes,
        vec![vec![FIFO_WR_PTR, 0], vec![FIFO_OVF_CNT, 0], vec![FIFO_RD_PTR, 0]]
    );
}

#[test]
fn temperature_start_enables_interrupt_then_triggers() {
    let mut s = sensor(MockBus::new().with(INT_ENABLE_2, 0x00));
    assert_eq!(s.start_temperature_measurement(), Ok(()));
    assert_eq!(s.release().writes, vec![vec![INT_ENABLE_2, 0x02], vec![0x21, 0x01]]);
}

#[test]
fn temperature_not_ready_is_none() {
    let mut s = sensor(MockBus::new().with(INT_STATUS_2, 0x00).with(TEMP_INTR, 25));
    assert_eq!(s.read_temperature(), Ok(None));
    assert_eq!(s.release().reads, vec![(INT_STATUS_1, 1), (INT_STATUS_2, 1)]);
}

#[test]
fn temperature_ready_is_sixteenths() {
    let mut s = sensor(MockBus::new().with(INT_STATUS_2, 0x02).with(TEMP_INTR, 0x19).with(TEMP_FRAC, 0xF4));
    assert_eq!(s.read_temperature(), Ok(Some(404)));
    assert_eq!(404.0f64 / 16.0, 25.25);
    let mut cold = sensor(MockBus::new().with(INT_STATUS_2, 0x03).with(TEMP_INTR, 0xF6).with(TEMP_FRAC, 0x08));
    assert_eq!(cold.read_temperature(), Ok(Some(-152)));
}

#[test]
fn temperature_from_registers_is_signed() {
    assert_eq!(temperature_from_registers(0x00, 0x00), 0);
    assert_eq!(temperature_from_registers(0x7F, 0x0F), 127 * 16 + 15);
    assert_eq!(temperature_from_registers(0x80, 0x00), -128 * 16);
    assert_eq!(temperature_from_registers(0xFF, 0x01), -15);
}

#[test]
fn multi_led_slots_are_nibble_packed() {
    let mut s = sensor(MockBus::new());
    let r = s.set_multi_led_slots(LedSlot::Led1Red, LedSlot::Led2Ir, LedSlot::Disabled, LedSlot::PilotLed3);
    assert_eq!(r, Ok(()));
    assert_eq!(s.release().writes, vec![vec![0x11, 0x21], vec![0x12, 0x70]]);
}

#[test]
fn proximity_threshold_is_written() {
    let mut s = sensor(MockBus::new());
    assert_eq!(s.set_proximity_threshold(0x42), Ok(()));
    assert_eq!(s.release().writes, vec![vec![0x30, 0x42]]);
}

#[test]
fn initialize_sensor_runs_full_sequence() {
    let mut s = sensor(MockBus::new().with(PART_ID, 0x15));
    assert_eq!(s.initialize_sensor(), Ok(()));
    let bus = s.release();
    assert_eq!(
        bus.writes,
        vec![
            vec![MODE_CONFIG, 0x40],
            vec![FIFO_WR_PTR, 0],
            vec![FIFO_OVF_CNT, 0],
            vec![FIFO_RD_PTR, 0],
            vec![MODE_CONFIG, 0x43],
            vec![SPO2_CONFIG, 0x20],
            vec![SPO2_CONFIG, 0x24],
            vec![SPO2_CONFIG, 0x27],
            vec![FIFO_CONFIG, 0x40],
            vec![FIFO_CONFIG, 0x50],
            vec![FIFO_CONFIG, 0x5F],
            vec![0x0C, 0x1F],
            vec![0x0D, 0x1F],
            vec![INT_ENABLE_1, 0x80],
            vec![INT_ENABLE_1, 0xC0],
        ]
    );
}

#[test]
fn initialize_sensor_stops_on_wrong_identity() {
    let mut s = sensor(MockBus::new().with(PART_ID, 0x11));
    assert_eq!(s.initialize_sensor(), Err(Error::NotDetected));
    assert!(s.release().writes.is_empty());
}

#[test]
fn initialize_sensor_stops_at_first_bus_failure() {
    let mut bus = MockBus::new().with(PART_ID, 0x15);
    bus.fail_at = Some(3);
    let mut s = sensor(bus);
    assert_eq!(s.initialize_sensor(), Err(Error::I2c(BusFault)));
    let bus = s.release();
    assert_eq!(bus.transfers, 4);
    assert_eq!(bus.writes, vec![vec![MODE_CONFIG, 0x40], vec![FIFO_WR_PTR, 0]]);
}

#[test]
fn heart_rate_mode_lights_only_infrared() {
    let mut s = sensor(MockBus::new().with(PART_ID, 0x15));
    assert_eq!(s.initialize_heart_rate_mode(), Ok(()));
    let bus = s.release();
    assert_eq!(
        bus.writes,
        vec![
            vec![MODE_CONFIG, 0x40],
            vec![FIFO_WR_PTR, 0],
            vec![FIFO_OVF_CNT, 0],
            vec![FIFO_RD_PTR, 0],
            vec![MODE_CONFIG, 0x42],
            vec![SPO2_CONFIG, 0x20],
            vec![SPO2_CONFIG, 0x24],
            vec![SPO2_CONFIG, 0x27],
            vec![FIFO_CONFIG, 0x40],
            vec![0x0D, 0x1F],
            vec![INT_ENABLE_1, 0x80],
        ]
    );
}

#[test]
fn adc_resolution_follows_pulse_width() {
    for (config, bits) in [(0x00u8, 15u8), (0x25, 16), (0x7A, 17), (0x27, 18)] {
        let mut s = sensor(MockBus::new().with(SPO2_CONFIG, config));
        assert_eq!(s.get_adc_resolution(), Ok(bits));
    }
}

#[test]
fn unknown_mode_bits_are_invalid_data() {
    let mut s = sensor(MockBus::new().with(MODE_CONFIG, 0x00));
    assert_eq!(s.get_operation_mode(), Err(Error::InvalidData));
    let mut s = sensor(MockBus::new().with(MODE_CONFIG, 0xFA));
    assert_eq!(s.get_operation_mode(), Ok(OperationMode::HeartRate));
    let mut s = sensor(MockBus::new().with(MODE_CONFIG, 0x03));
    assert_eq!(s.get_operation_mode(), Ok(OperationMode::SpO2));
}

#[test]
fn validation_passes_on_healthy_device() {
    let mut s = sensor(MockBus::new().with(PART_ID, 0x15).with(MODE_CONFIG, 0x03));
    assert_eq!(s.validate_configuration(), Ok(()));
    let bus = s.release();
    assert!(bus.writes.is_empty());
    assert_eq!(bus.reads, vec![(PART_ID, 1), (MODE_CONFIG, 1), (MODE_CONFIG, 1), (FIFO_OVF_CNT, 1)]);
}

#[test]
fn validation_reports_each_fault() {
    let mut s = sensor(MockBus::new().with(PART_ID, 0x15).with(MODE_CONFIG, 0x83));
    assert_eq!(s.validate_configuration(), Err(Error::SensorSpecific(SHUTDOWN_MESSAGE)));
    let mut s = sensor(MockBus::new().with(PART_ID, 0x15).with(MODE_CONFIG, 0x05));
    assert_eq!(s.validate_configuration(), Err(Error::InvalidData));
    let mut s = sensor(MockBus::new().with(PART_ID, 0x15).with(MODE_CONFIG, 0x03).with(FIFO_OVF_CNT, 1));
    assert_eq!(s.validate_configuration(), Err(Error::SensorSpecific(OVERFLOW_MESSAGE)));
    let mut s = sensor(MockBus::new().with(PART_ID, 0x00));
    assert_eq!(s.validate_configuration(), Err(Error::NotDetected));
}

#[test]
fn force_reset_succeeds_on_third_attempt() {
    let mut s = sensor(MockBus::new().script(PART_ID, &[0x00, 0x00, 0x15]));
    assert_eq!(s.force_reset(), Ok(()));
    let bus = s.release();
    assert_eq!(bus.writes, vec![vec![MODE_CONFIG, 0x40]]);
    assert_eq!(bus.reads, vec![(PART_ID, 1); 3]);
}

#[test]
fn force_reset_gives_up_after_three_attempts() {
    let mut s = sensor(MockBus::new().script(PART_ID, &[0x00, 0x00, 0x00, 0x15]));
    assert_eq!(s.force_reset(), Err(Error::SensorSpecific(RESET_FAILED_MESSAGE)));
    assert_eq!(s.release().reads, vec![(PART_ID, 1); 3]);
}

#[test]
fn force_reset_stops_on_bus_failure() {
    let mut bus = MockBus::new().script(PART_ID, &[0x00, 0x15]);
    bus.fail_at = Some(2);
    let mut s = sensor(bus);
    assert_eq!(s.force_reset(), Err(Error::I2c(BusFault)));
    assert_eq!(s.release().transfers, 3);
}

#[test]
fn error_kinds_are_classified() {
    let e: Error<BusFault> = Error::I2c(BusFault);
    assert!(e.is_i2c_error());
    assert!(!e.is_config_error());
    assert_eq!(e.into_i2c_error(), Some(BusFault));
    let c: Error<BusFault> = Error::ConfigError;
    assert!(c.is_config_error());
    assert!(!c.is_i2c_error());
    assert_eq!(c.into_i2c_error(), None);
    let d: Error<BusFault> = Error::SensorSpecific("x");
    assert!(d.is_config_error());
    let n: Error<BusFault> = Error::NotDetected;
    assert!(!n.is_config_error());
    assert_eq!(n.into_i2c_error(), None);
    assert_eq!(Error::from(BusFault), Error::I2c(BusFault));
}

#[test]
fn create_default_runs_setup() {
    let s = max30102_hayasen::create_default(MockBus::new().with(PART_ID, 0x15), 0x5A).unwrap();
    let bus = s.release();
    assert_eq!(bus.writes.len(), 15);
    assert!(bus.addresses.iter().all(|a| *a == 0x5A));
    let failed = max30102_hayasen::create_default(MockBus::new(), 0x5A);
    assert!(matches!(failed, Err(Error::NotDetected)));
}

#[test]
fn create_default_with_address_uses_default() {
    let s = max30102_hayasen::create_default_with_address(MockBus::new().with(PART_ID, 0x15)).unwrap();
    assert!(s.release().addresses.iter().all(|a| *a == DEFAULT_ADDRESS));
}

#[test]
fn create_heart_rate_mode_runs_setup() {
    let s = max30102_hayasen::create_heart_rate_mode(MockBus::new().with(PART_ID, 0x15), ADDR).unwrap();
    let bus = s.release();
    assert_eq!(bus.writes.len(), 11);
    assert_eq!(bus.regs[MODE_CONFIG as usize], 0x42);
}

#[test]
fn low_power_and_high_performance_presets() {
    let mut s = sensor(MockBus::new().with(SPO2_CONFIG, 0x27).with(FIFO_CONFIG, 0x5F));
    assert_eq!(max30102_hayasen::setup_low_power_mode(&mut s), Ok(()));
    assert_eq!(s.device.bus().regs[SPO2_CONFIG as usize], 0x23);
    assert_eq!(s.device.bus().regs[FIFO_CONFIG as usize], 0x9F);
    assert_eq!(s.device.bus().regs[0x0C], 0x0F);
    assert_eq!(s.device.bus().regs[0x0D], 0x0F);
    assert_eq!(max30102_hayasen::setup_high_performance_mode(&mut s), Ok(()));
    assert_eq!(s.device.bus().regs[SPO2_CONFIG as usize], 0x2F);
    assert_eq!(s.device.bus().regs[FIFO_CONFIG as usize], 0x3F);
    assert_eq!(s.device.bus().regs[0x0C], 0x3F);
    assert_eq!(s.device.bus().regs[0x0D], 0x3F);
}

#[test]
fn proximity_and_interrupt_shortcuts() {
    let mut s = sensor(MockBus::new());
    assert_eq!(max30102_hayasen::setup_proximity_detection(&mut s, 0x33), Ok(()));
    assert_eq!(s.device.bus().regs[0x30], 0x33);
    assert_eq!(s.device.bus().regs[INT_ENABLE_1 as usize], 0x20);
    assert_eq!(max30102_hayasen::enable_data_ready_interrupt(&mut s), Ok(()));
    assert_eq!(s.device.bus().regs[INT_ENABLE_1 as usize], 0x60);
    let before = s.device.bus().transfers;
    assert_eq!(max30102_hayasen::enable_fifo_interrupt(&mut s, 16), Err(Error::ConfigError));
    assert_eq!(s.device.bus().transfers, before);
    assert_eq!(max30102_hayasen::enable_fifo_interrupt(&mut s, 8), Ok(()));
    assert_eq!(s.device.bus().regs[INT_ENABLE_1 as usize], 0xE0);
    assert_eq!(s.device.bus().regs[FIFO_CONFIG as usize], 0x08);
}

#[test]
fn shortcuts_forward_reads() {
    let mut bus = fifo_bus(2, 0, &[0, 0, 1, 0, 0, 2, 0, 0, 3, 0, 0, 4]);
    bus.regs[INT_STATUS_2 as usize] = 0x02;
    bus.regs[TEMP_INTR as usize] = 30;
    let mut s = sensor(bus);
    assert_eq!(max30102_hayasen::get_available_samples(&mut s), Ok(2));
    let mut slots = [blank(); 1];
    assert_eq!(max30102_hayasen::read_fifo_batch(&mut s, &mut slots), Ok(1));
    assert_eq!(slots[0], FifoSample { ir: 1, red: 2 });
    assert_eq!(max30102_hayasen::read_fifo_sample(&mut s), Ok(Some(FifoSample { ir: 3, red: 4 })));
    assert_eq!(max30102_hayasen::read_temperature(&mut s), Ok(Some(480)));
    assert_eq!(max30102_hayasen::start_temperature_measurement(&mut s), Ok(()));
}

#[test]
fn power_save_round_trip() {
    let mut s = sensor(MockBus::new().with(MODE_CONFIG, 0x07));
    assert_eq!(max30102_hayasen::power_save_mode(&mut s), Ok(()));
    assert_eq!(s.device.bus().regs[MODE_CONFIG as usize], 0x87);
    assert_eq!(max30102_hayasen::wake_from_power_save(&mut s), Ok(()));
    assert_eq!(s.device.bus().regs[MODE_CONFIG as usize], 0x07);
}

#[test]
fn sensor_status_reads_in_order() {
    let mut s = sensor(MockBus::new().with(MODE_CONFIG, 0x83).with(INT_STATUS_1, 0x40).with(INT_STATUS_2, 0x02));
    assert_eq!(max30102_hayasen::check_sensor_status(&mut s), Ok((true, OperationMode::SpO2, (0x40, 0x02))));
    assert_eq!(
        s.release().reads,
        vec![(MODE_CONFIG, 1), (MODE_CONFIG, 1), (INT_STATUS_1, 1), (INT_STATUS_2, 1)]
    );
    let mut bad = sensor(MockBus::new().with(MODE_CONFIG, 0x01));
    assert_eq!(max30102_hayasen::check_sensor_status(&mut bad), Err(Error::InvalidData));
}

#[test]
fn reset_and_reinitialize_runs_both() {
    let mut s = sensor(MockBus::new().script(PART_ID, &[0x00, 0x15, 0x15]));
    assert_eq!(max30102_hayasen::reset_and_reinitialize(&mut s), Ok(()));
    let bus = s.release();
    assert_eq!(bus.writes.len(), 16);
    assert_eq!(bus.reads.iter().filter(|r| r.0 == PART_ID).count(), 3);
    let mut dead = sensor(MockBus::new());
    assert_eq!(
        max30102_hayasen::reset_and_reinitialize(&mut dead),
        Err(Error::SensorSpecific(RESET_FAILED_MESSAGE))
    );
    assert_eq!(dead.release().writes.len(), 1);
}
