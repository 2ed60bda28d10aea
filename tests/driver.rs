use std::cell::RefCell;
use std::rc::Rc;

use lis3dsh::commbus::spi::{ChipSelect, SpiTransport};
use lis3dsh::commbus::{CommBus, SPIBus};
use lis3dsh::register::{DataRate, Range, RawSample, Register};
use lis3dsh::{DelayMs, Error, LIS3DSH};

/// A register file behind a simulated serial bus, with counters.
struct Chip {
    regs: [u8; 128],
    burst_from: usize,
    selects: u32,
    releases: u32,
    transactions: u32,
    fail_transfer: bool,
    fail_write: bool,
    fail_writes_from: u32,
    fail_select: bool,
    fail_release: bool,
}

impl Chip {
    fn new(id: u8) -> Rc<RefCell<Chip>> {
        let mut regs = [0u8; 128];
        regs[0x0F] = id;
        Rc::new(RefCell::new(Chip {
            regs,
            burst_from: 0,
            selects: 0,
            releases: 0,
            transactions: 0,
            fail_transfer: false,
            fail_write: false,
            fail_writes_from: u32::MAX,
            fail_select: false,
            fail_release: false,
        }))
    }
}

struct MockSpi(Rc<RefCell<Chip>>);
struct MockPin(Rc<RefCell<Chip>>);
struct NoDelay(u32);

#[derive(Debug, PartialEq)]
struct SpiFault;
#[derive(Debug, PartialEq)]
struct PinFault;

impl SpiTransport for MockSpi {
    type Error = SpiFault;

    fn transfer(&mut self, words: &mut [u8]) -> Result<(), SpiFault> {
        let mut c = self.0.borrow_mut();
        if c.fail_transfer {
            return Err(SpiFault);
        }
        if words.len() == 2 && words[0] & 0x80 != 0 {
            c.transactions += 1;
            words[1] = c.regs[(words[0] & 0x7F) as usize];
        } else {
            for (i, w) in words.iter_mut().enumerate() {
                *w = c.regs[c.burst_from + i];
            }
        }
        Ok(())
    }

    fn write(&mut self, words: &[u8]) -> Result<(), SpiFault> {
        let mut c = self.0.borrow_mut();
        if c.fail_write || c.transactions >= c.fail_writes_from {
            return Err(SpiFault);
        }
        c.transactions += 1;
        if words.len() == 1 {
            c.burst_from = (words[0] & 0x7F) as usize;
        } else {
            c.regs[words[0] as usize] = words[1];
        }
        Ok(())
    }
}

impl ChipSelect for MockPin {
    type Error = PinFault;

    fn set_low(&mut self) -> Result<(), PinFault> {
        let mut c = self.0.borrow_mut();
        c.selects += 1;
        if c.fail_select {
            Err(PinFault)
        } else {
            Ok(())
        }
    }

    fn set_high(&mut self) -> Result<(), PinFault> {
        let mut c = self.0.borrow_mut();
        c.releases += 1;
        if c.fail_release {
            Err(PinFault)
        } else {
            Ok(())
        }
    }
}

impl DelayMs for NoDelay {
    fn delay_ms(&mut self, ms: u8) {
        self.0 += ms as u32;
    }
}

fn bus(chip: &Rc<RefCell<Chip>>) -> SPIBus<MockSpi, MockPin> {
    SPIBus::new(MockSpi(chip.clone()), MockPin(chip.clone()))
}

fn device(chip: &Rc<RefCell<Chip>>) -> LIS3DSH<SPIBus<MockSpi, MockPin>> {
    let mut delay = NoDelay(0);
    match LIS3DSH::new_with_interface(bus(chip), &mut delay) {
        Ok(dev) => dev,
        Err(e) => panic!("initialization failed: {:?}", e),
    }
}

#[test]
fn init_with_identity_sets_100hz_and_8g() {
    let chip = Chip::new(63);
    let mut delay = NoDelay(0);
    let mut dev = match LIS3DSH::new_with_interface(bus(&chip), &mut delay) {
        Ok(dev) => dev,
        Err(e) => panic!("initialization failed: {:?}", e),
    };
    assert_eq!(delay.0, 10);
    assert!(matches!(dev.set_datarate(DataRate::Hz_100), Ok(())));
    assert!(matches!(dev.get_range(), Ok(Range::G8)));
    let c = chip.borrow();
    assert_eq!(c.regs[0x20], 0x60 | 0x08 | 0x07);
    assert_eq!(c.regs[0x23], 0);
    assert_eq!(c.regs[0x24], 0x18);
}

#[test]
fn init_with_wrong_identity_stops() {
    let chip = Chip::new(0);
    let mut delay = NoDelay(0);
    let r = LIS3DSH::new_with_interface(bus(&chip), &mut delay);
    assert!(matches!(r, Err(Error::WrongAddress)));
    assert_eq!(delay.0, 10);
    let c = chip.borrow();
    // four writes and the identity read, nothing after
    assert_eq!(c.transactions, 5);
    assert_eq!(c.regs[0x20], 0x08);
    assert_eq!(c.regs[0x24], 0);
}

#[test]
fn init_aborts_on_first_transport_failure() {
    let chip = Chip::new(63);
    chip.borrow_mut().fail_write = true;
    let mut delay = NoDelay(0);
    let r = LIS3DSH::new_with_interface(bus(&chip), &mut delay);
    assert!(matches!(r, Err(Error::CommErr(SpiFault))));
    assert_eq!(delay.0, 0);
    let c = chip.borrow();
    assert_eq!(c.selects, 1);
    assert_eq!(c.releases, 1);
}

#[test]
fn raw_sample_is_little_endian() {
    let chip = Chip::new(63);
    let mut dev = device(&chip);
    {
        let mut c = chip.borrow_mut();
        let bytes = [0x34u8, 0x12, 0x00, 0x00, 0xCD, 0xAB];
        c.regs[0x28..0x2E].copy_from_slice(&bytes);
    }
    let s = match dev.accel_raw() {
        Ok(s) => s,
        Err(e) => panic!("read failed: {:?}", e),
    };
    assert_eq!(s, RawSample { x: 0x1234, y: 0, z: 0xABCDu16 as i16 });
    assert_eq!(s.z, -21555);
}

#[test]
fn calibrated_sample_at_2g() {
    let chip = Chip::new(63);
    let mut dev = device(&chip);
    assert!(matches!(dev.set_range(Range::G2), Ok(())));
    {
        let mut c = chip.borrow_mut();
        c.regs[0x28] = 0xE8;
        c.regs[0x29] = 0x03;
    }
    let range = match dev.get_range() {
        Ok(r) => r,
        Err(e) => panic!("read failed: {:?}", e),
    };
    assert_eq!(range, Range::G2);
    let s = match dev.accel_raw() {
        Ok(s) => s,
        Err(e) => panic!("read failed: {:?}", e),
    };
    assert_eq!(s.x, 1000);
    let g = s.x as f32 * (range.scale() as f32 / 100_000.0);
    assert!((g - 0.06).abs() < 1e-6);
}

#[test]
fn set_range_keeps_other_bits_and_forces_four_wire() {
    let chip = Chip::new(63);
    let mut dev = device(&chip);
    chip.borrow_mut().regs[0x24] = 0xFF;
    assert!(matches!(dev.set_range(Range::G16), Ok(())));
    assert_eq!(chip.borrow().regs[0x24], 0xC6 | (0b100 << 3));
    assert!(matches!(dev.get_range(), Ok(Range::G16)));
}

#[test]
fn set_datarate_keeps_low_nibble() {
    let chip = Chip::new(63);
    let mut dev = device(&chip);
    chip.borrow_mut().regs[0x20] = 0xAB;
    assert!(matches!(dev.set_datarate(DataRate::Hz_1600), Ok(())));
    assert_eq!(chip.borrow().regs[0x20], 0x9B);
    assert!(matches!(dev.get_datarate(), Ok(DataRate::Hz_1600)));
}

#[test]
fn undocumented_codes_are_reported() {
    let chip = Chip::new(63);
    let mut dev = device(&chip);
    chip.borrow_mut().regs[0x20] = 0xF0;
    assert!(matches!(dev.get_datarate(), Err(Error::InvalidDataRate)));
    chip.borrow_mut().regs[0x24] = 0x38;
    assert!(matches!(dev.get_range(), Err(Error::InvalidRange)));
}

#[test]
fn device_id_and_status() {
    let chip = Chip::new(63);
    let mut dev = device(&chip);
    assert!(matches!(dev.get_device_id(), Ok(63)));
    chip.borrow_mut().regs[0x27] = 0x08;
    assert!(matches!(dev.has_data(), Ok(true)));
    chip.borrow_mut().regs[0x27] = 0xF7;
    assert!(matches!(dev.has_data(), Ok(false)));
}

#[test]
fn control_registers_by_number() {
    let chip = Chip::new(63);
    let mut dev = device(&chip);
    chip.borrow_mut().regs[0x26] = 0x5A;
    assert!(matches!(dev.get_status_reg(6), Ok(0x5A)));
    let before = chip.borrow().transactions;
    assert!(matches!(dev.get_status_reg(0), Err(Error::InvalidRange)));
    assert!(matches!(dev.get_status_reg(7), Err(Error::InvalidRange)));
    assert_eq!(chip.borrow().transactions, before);
}

#[test]
fn every_transaction_selects_and_releases_once() {
    let chip = Chip::new(63);
    let mut b = bus(&chip);
    let mut buf = [0u8; 6];
    assert!(b.write_register(Register::CTRL_REG4.write(), 1).is_ok());
    assert!(b.read_register(Register::WHOAMI.read()).is_ok());
    assert!(b.read_bytes(Register::OUT_X_L.read(), &mut buf).is_ok());
    chip.borrow_mut().fail_transfer = true;
    chip.borrow_mut().fail_write = true;
    assert!(b.write_register(Register::CTRL_REG4.write(), 1).is_err());
    assert!(b.read_register(Register::WHOAMI.read()).is_err());
    assert!(b.read_bytes(Register::OUT_X_L.read(), &mut buf).is_err());
    chip.borrow_mut().fail_select = true;
    assert!(b.read_register(Register::WHOAMI.read()).is_err());
    let c = chip.borrow();
    assert_eq!(c.selects, 7);
    assert_eq!(c.releases, 7);
}

#[test]
fn payload_failure_outranks_release_failure() {
    let chip = Chip::new(63);
    let mut b = bus(&chip);
    chip.borrow_mut().fail_release = true;
    assert!(matches!(b.read_register(0x8F), Err(Error::PinError(PinFault))));
    chip.borrow_mut().fail_transfer = true;
    assert!(matches!(b.read_register(0x8F), Err(Error::CommErr(SpiFault))));
    chip.borrow_mut().fail_write = true;
    assert!(matches!(b.write_register(0x20, 0), Err(Error::CommErr(SpiFault))));
    let mut buf = [0u8; 2];
    assert!(matches!(b.read_bytes(0xA8, &mut buf), Err(Error::CommErr(SpiFault))));
}

#[test]
fn select_failure_is_reported_and_released() {
    let chip = Chip::new(63);
    let mut b = bus(&chip);
    chip.borrow_mut().fail_select = true;
    assert!(matches!(b.write_register(0x20, 0), Err(Error::PinError(PinFault))));
    let c = chip.borrow();
    assert_eq!(c.transactions, 0);
    assert_eq!(c.releases, 1);
}

#[test]
fn wire_bytes_of_a_read_and_a_write() {
    let chip = Chip::new(63);
    let mut b = bus(&chip);
    assert!(b.write_register(Register::CTRL_REG6.write(), 0x42).is_ok());
    assert_eq!(chip.borrow().regs[0x26], 0x42);
    assert!(matches!(b.read_register(Register::CTRL_REG6.read()), Ok(0x42)));
}

#[test]
fn init_waits_only_after_successful_reset_writes() {
    let chip = Chip::new(63);
    chip.borrow_mut().fail_writes_from = 1;
    let mut dev = LIS3DSH::new(bus(&chip));
    let mut delay = NoDelay(0);
    assert!(matches!(dev.init(&mut delay), Err(Error::CommErr(SpiFault))));
    assert_eq!(delay.0, 5);
    assert_eq!(chip.borrow().regs[0x23], 1);
}

#[test]
fn init_on_a_taken_bus() {
    let chip = Chip::new(63);
    let mut dev = LIS3DSH::new(bus(&chip));
    assert_eq!(chip.borrow().selects, 0);
    let mut delay = NoDelay(0);
    assert!(matches!(dev.init(&mut delay), Ok(())));
    assert_eq!(delay.0, 10);
    assert!(matches!(dev.get_datarate(), Ok(DataRate::Hz_100)));
    assert!(matches!(dev.get_range(), Ok(Range::G8)));
}
