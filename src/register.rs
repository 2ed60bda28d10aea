use vstd::prelude::*;

verus! {

/// Registers of the device.
#[allow(dead_code, non_camel_case_types)]
#[derive(Copy, Clone, Debug, PartialEq, Eq, Structural)]
pub enum Register {
    OUT_T,
    INFO1,
    INFO2,
    WHOAMI,
    OFF_X,
    OFF_Y,
    OFF_Z,
    CS_X,
    CS_Y,
    CS_Z,
    LC_L,
    LC_H,
    STAT,
    CTRL_REG4,
    CTRL_REG1,
    CTRL_REG2,
    CTRL_REG3,
    CTRL_REG5,
    CTRL_REG6,
    STATUS,
    OUT_X_L,
    OUT_X_H,
    OUT_Y_L,
    OUT_Y_H,
    OUT_Z_L,
    OUT_Z_H,
}

/// Bit 7 of a command byte: set for a read, clear for a write.
pub const READ_FLAG: u8 = 0x80;

impl Register {
    /// The register's 7-bit address.
    pub open spec fn spec_addr(self) -> u8 {
        match self {
            Register::OUT_T => 0x0C,
            Register::INFO1 => 0x0D,
            Register::INFO2 => 0x0E,
            Register::WHOAMI => 0x0F,
            Register::OFF_X => 0x10,
            Register::OFF_Y => 0x11,
            Register::OFF_Z => 0x12,
            Register::CS_X => 0x13,
            Register::CS_Y => 0x14,
            Register::CS_Z => 0x15,
            Register::LC_L => 0x16,
            Register::LC_H => 0x17,
            Register::STAT => 0x18,
            Register::CTRL_REG4 => 0x20,
            Register::CTRL_REG1 => 0x21,
            Register::CTRL_REG2 => 0x22,
            Register::CTRL_REG3 => 0x23,
            Register::CTRL_REG5 => 0x24,
            Register::CTRL_REG6 => 0x26,
            Register::STATUS => 0x27,
            Register::OUT_X_L => 0x28,
            Register::OUT_X_H => 0x29,
            Register::OUT_Y_L => 0x2A,
            Register::OUT_Y_H => 0x2B,
            Register::OUT_Z_L => 0x2C,
            Register::OUT_Z_H => 0x2D,
        }
    }

    /// Command byte that reads the register: its address with bit 7 set.
    pub open spec fn spec_read(self) -> u8 {
        (self.spec_addr() + READ_FLAG) as u8
    }

    /// Command byte that writes the register: its address with bit 7 clear.
    pub open spec fn spec_write(self) -> u8 {
        self.spec_addr()
    }

    /// Get register address
    pub fn addr(self) -> (r: u8)
        ensures
            r == self.spec_addr(),
            r < READ_FLAG,
    {
        match self {
            Register::OUT_T => 0x0C,
            Register::INFO1 => 0x0D,
            Register::INFO2 => 0x0E,
            Register::WHOAMI => 0x0F,
            Register::OFF_X => 0x10,
            Register::OFF_Y => 0x11,
            Register::OFF_Z => 0x12,
            Register::CS_X => 0x13,
            Register::CS_Y => 0x14,
            Register::CS_Z => 0x15,
            Register::LC_L => 0x16,
            Register::LC_H => 0x17,
            Register::STAT => 0x18,
            Register::CTRL_REG4 => 0x20,
            Register::CTRL_REG1 => 0x21,
            Register::CTRL_REG2 => 0x22,
            Register::CTRL_REG3 => 0x23,
            Register::CTRL_REG5 => 0x24,
            Register::CTRL_REG6 => 0x26,
            Register::STATUS => 0x27,
            Register::OUT_X_L => 0x28,
            Register::OUT_X_H => 0x29,
            Register::OUT_Y_L => 0x2A,
            Register::OUT_Y_H => 0x2B,
            Register::OUT_Z_L => 0x2C,
            Register::OUT_Z_H => 0x2D,
        }
    }

    /// Command byte for reading the register.
    pub fn read(self) -> (r: u8)
        ensures
            r == self.spec_read(),
            r == self.spec_addr() | READ_FLAG,
    {
        let a = self.addr();
        let r = a | READ_FLAG;
        assert(a < 0x80 ==> a | 0x80 == a + 0x80) by (bit_vector);
        r
    }

    /// Command byte for writing the register.
    pub fn write(self) -> (r: u8)
        ensures
            r == self.spec_write(),
            r == self.spec_addr() & 0x7f,
    {
        let a = self.addr();
        let r = a & 0x7f;
        assert(a < 0x80 ==> a & 0x7f == a) by (bit_vector);
        r
    }
}

/// Full-scale selection.
#[allow(non_camel_case_types)]
#[derive(Copy, Clone, Debug, PartialEq, Eq, Structural)]
pub enum Range {
    /// ±16g
    G16,
    /// ±8g
    G8,
    ///  ±6g
    G6,
    /// ±4g
    G4,
    /// ±2g (Default)
    G2,
}

impl Range {
    /// The 3-bit code of the range.
    pub open spec fn spec_bits(self) -> u8 {
        match self {
            Range::G16 => 0b100,
            Range::G8 => 0b011,
            Range::G6 => 0b010,
            Range::G4 => 0b001,
            Range::G2 => 0b000,
        }
    }

    /// The range whose code is `bits`, if there is one.
    pub open spec fn spec_from_bits(bits: u8) -> Option<Range> {
        if bits == 0b100 {
            Some(Range::G16)
        } else if bits == 0b011 {
            Some(Range::G8)
        } else if bits == 0b010 {
            Some(Range::G6)
        } else if bits == 0b001 {
            Some(Range::G4)
        } else if bits == 0b000 {
            Some(Range::G2)
        } else {
            None
        }
    }

    /// Sensitivity in hundredths of a milli-g per least significant bit.
    pub open spec fn spec_scale(self) -> u32 {
        match self {
            Range::G2 => 6,
            Range::G4 => 12,
            Range::G6 => 18,
            Range::G8 => 24,
            Range::G16 => 73,
        }
    }

    pub fn bits(self) -> (r: u8)
        ensures
            r == self.spec_bits(),
            r < 8,
    {
        match self {
            Range::G16 => 0b100,
            Range::G8 => 0b011,
            Range::G6 => 0b010,
            Range::G4 => 0b001,
            Range::G2 => 0b000,
        }
    }

    /// Decodes a full-scale code; `None` for a code outside the documented set.
    pub fn from_bits(bits: u8) -> (r: Option<Range>)
        ensures
            r == Range::spec_from_bits(bits),
    {
        match bits {
            0b100 => Some(Range::G16),
            0b011 => Some(Range::G8),
            0b010 => Some(Range::G6),
            0b001 => Some(Range::G4),
            0b000 => Some(Range::G2),
            _ => None,
        }
    }

    /// Sensitivity in hundredths of a milli-g per least significant bit
    /// (0.06 mg/LSB at ±2g is 6).
    pub fn scale(self) -> (r: u32)
        ensures
            r == self.spec_scale(),
    {
        match self {
            Range::G2 => 6,
            Range::G4 => 12,
            Range::G6 => 18,
            Range::G8 => 24,
            Range::G16 => 73,
        }
    }
}

/// Output data rate.
#[allow(non_camel_case_types)]
#[derive(Copy, Clone, Debug, PartialEq, Eq, Structural)]
pub enum DataRate {
    Hz_1600,
    Hz_800,
    Hz_400,
    Hz_100,
    Hz_50,
    Hz_25,
    Hz_12,
    Hz_6,
    Hz_3,
    /// Power down
    PowerDown,
}

impl DataRate {
    /// The 4-bit code of the rate.
    pub open spec fn spec_bits(self) -> u8 {
        match self {
            DataRate::Hz_1600 => 0b1001,
            DataRate::Hz_800 => 0b1000,
            DataRate::Hz_400 => 0b0111,
            DataRate::Hz_100 => 0b0110,
            DataRate::Hz_50 => 0b0101,
            DataRate::Hz_25 => 0b0100,
            DataRate::Hz_12 => 0b0011,
            DataRate::Hz_6 => 0b0010,
            DataRate::Hz_3 => 0b0001,
            DataRate::PowerDown => 0b0000,
        }
    }

    /// The rate whose code is `bits`, if there is one.
    pub open spec fn spec_from_bits(bits: u8) -> Option<DataRate> {
        if bits == 0b1001 {
            Some(DataRate::Hz_1600)
        } else if bits == 0b1000 {
            Some(DataRate::Hz_800)
        } else if bits == 0b0111 {
            Some(DataRate::Hz_400)
        } else if bits == 0b0110 {
            Some(DataRate::Hz_100)
        } else if bits == 0b0101 {
            Some(DataRate::Hz_50)
        } else if bits == 0b0100 {
            Some(DataRate::Hz_25)
        } else if bits == 0b0011 {
            Some(DataRate::Hz_12)
        } else if bits == 0b0010 {
            Some(DataRate::Hz_6)
        } else if bits == 0b0001 {
            Some(DataRate::Hz_3)
        } else if bits == 0b0000 {
            Some(DataRate::PowerDown)
        } else {
            None
        }
    }

    /// Samples per thousand seconds.
    pub open spec fn spec_millihertz(self) -> u32 {
        match self {
            DataRate::Hz_1600 => 1_600_000,
            DataRate::Hz_800 => 800_000,
            DataRate::Hz_400 => 400_000,
            DataRate::Hz_100 => 100_000,
            DataRate::Hz_50 => 50_000,
            DataRate::Hz_25 => 25_000,
            DataRate::Hz_12 => 12_500,
            DataRate::Hz_6 => 6_250,
            DataRate::Hz_3 => 3_125,
            DataRate::PowerDown => 0,
        }
    }

    pub fn bits(self) -> (r: u8)
        ensures
            r == self.spec_bits(),
            r < 16,
    {
        match self {
            DataRate::Hz_1600 => 0b1001,
            DataRate::Hz_800 => 0b1000,
            DataRate::Hz_400 => 0b0111,
            DataRate::Hz_100 => 0b0110,
            DataRate::Hz_50 => 0b0101,
            DataRate::Hz_25 => 0b0100,
            DataRate::Hz_12 => 0b0011,
            DataRate::Hz_6 => 0b0010,
            DataRate::Hz_3 => 0b0001,
            DataRate::PowerDown => 0b0000,
        }
    }

    /// Decodes a data-rate code; `None` for a code outside the documented set.
    pub fn from_bits(bits: u8) -> (r: Option<DataRate>)
        ensures
            r == DataRate::spec_from_bits(bits),
    {
        match bits {
            0b1001 => Some(DataRate::Hz_1600),
            0b1000 => Some(DataRate::Hz_800),
            0b0111 => Some(DataRate::Hz_400),
            0b0110 => Some(DataRate::Hz_100),
            0b0101 => Some(DataRate::Hz_50),
            0b0100 => Some(DataRate::Hz_25),
            0b0011 => Some(DataRate::Hz_12),
            0b0010 => Some(DataRate::Hz_6),
            0b0001 => Some(DataRate::Hz_3),
            0b0000 => Some(DataRate::PowerDown),
            _ => None,
        }
    }

    /// Sample rate in millihertz (12.5 Hz is 12500; power-down is 0).
    pub fn sample_rate_millihertz(self) -> (r: u32)
        ensures
            r == self.spec_millihertz(),
    {
        match self {
            DataRate::Hz_1600 => 1_600_000,
            DataRate::Hz_800 => 800_000,
            DataRate::Hz_400 => 400_000,
            DataRate::Hz_100 => 100_000,
            DataRate::Hz_50 => 50_000,
            DataRate::Hz_25 => 25_000,
            DataRate::Hz_12 => 12_500,
            DataRate::Hz_6 => 6_250,
            DataRate::Hz_3 => 3_125,
            DataRate::PowerDown => 0,
        }
    }
}


/// Snapshot of the STATUS register.
pub struct DataStatus(u8);

pub const ZYXOR: u8 = 0b1000_0000;
pub const ZOR: u8 = 0b0100_0000;
pub const YOR: u8 = 0b0010_0000;
pub const XOR: u8 = 0b0001_0000;
pub const ZYXDA: u8 = 0b0000_1000;
pub const ZDA: u8 = 0b0000_0100;
pub const YDA: u8 = 0b0000_0010;
pub const XDA: u8 = 0b0000_0001;

impl DataStatus {
    /// The status byte this snapshot was taken from.
    pub closed spec fn spec_byte(&self) -> u8 {
        self.0
    }

    /// New from STATUS register
    pub fn from(status: u8) -> (r: DataStatus)
        ensures
            r.spec_byte() == status,
    {
        DataStatus(status)
    }

    /// Data overrun on ZYX axis
    pub fn zyxor(&self) -> (r: bool)
        ensures
            r == (self.spec_byte() & ZYXOR != 0),
    {
        self.0 & ZYXOR != 0
    }

    /// Data overrun on Z axis
    pub fn zor(&self) -> (r: bool)
        ensures
            r == (self.spec_byte() & ZOR != 0),
    {
        self.0 & ZOR != 0
    }

    /// Data overrun on Y axis
    pub fn yor(&self) -> (r: bool)
        ensures
            r == (self.spec_byte() & YOR != 0),
    {
        self.0 & YOR != 0
    }

    /// Data overrun on X axis
    pub fn xor(&self) -> (r: bool)
        ensures
            r == (self.spec_byte() & XOR != 0),
    {
        self.0 & XOR != 0
    }

    /// Data available for all axes
    pub fn zyxda(&self) -> (r: bool)
        ensures
            r == (self.spec_byte() & ZYXDA != 0),
    {
        self.0 & ZYXDA != 0
    }

    /// Data available for Z axis
    pub fn zda(&self) -> (r: bool)
        ensures
            r == (self.spec_byte() & ZDA != 0),
    {
        self.0 & ZDA != 0
    }

    /// Data available for Y axis
    pub fn yda(&self) -> (r: bool)
        ensures
            r == (self.spec_byte() & YDA != 0),
    {
        self.0 & YDA != 0
    }

    /// Data available for X axis
    pub fn xda(&self) -> (r: bool)
        ensures
            r == (self.spec_byte() & XDA != 0),
    {
        self.0 & XDA != 0
    }
}

pub const DEVICE_ID: u8 = 63;

pub const ODR_MASK: u8 = 0b1111_0000;
pub const ODR_OFFSET: u8 = 4;

pub const BDU: u8 = 0b0000_1000;
pub const Z_EN: u8 = 0b0000_0100;
pub const Y_EN: u8 = 0b0000_0010;
pub const X_EN: u8 = 0b0000_0001;
pub const AXIS_MASK: u8 = 0b0000_0111;

pub const FS_MASK: u8 = 0b0011_1000;
pub const FS_OFFSET: u8 = 3;

/// Serial interface mode bit of CTRL_REG5: clear selects 4-wire mode.
pub const SIM: u8 = 0b0000_0001;

pub const STRESET: u8 = 0b1;

/// The low three bits of CTRL_REG4 that enable the requested axes.
pub open spec fn axis_bits(x: bool, y: bool, z: bool) -> u8 {
    ((if x { X_EN } else { 0u8 }) | (if y { Y_EN } else { 0u8 })) | (if z { Z_EN } else { 0u8 })
}

/// CTRL_REG4 with the axis-enable bits replaced by the requested set.
pub open spec fn spec_axis_mask(v: u8, x: bool, y: bool, z: bool) -> u8 {
    (v & !AXIS_MASK) | axis_bits(x, y, z)
}

/// CTRL_REG4 with its rate field replaced by the code of `rate`.
pub open spec fn spec_datarate_field(v: u8, rate: DataRate) -> u8 {
    (v & !ODR_MASK) | (rate.spec_bits() << ODR_OFFSET)
}

/// CTRL_REG5 with its full-scale field replaced by the code of `range`, and
/// the serial interface forced to 4-wire mode.
pub open spec fn spec_range_field(v: u8, range: Range) -> u8 {
    ((v & !FS_MASK) | ((range.spec_bits() << FS_OFFSET) & FS_MASK)) & !SIM
}

/// Clears the axis-enable bits of `v` and sets those that are requested,
/// leaving bits 3 to 7 as they were.
pub fn encode_axis_mask(v: u8, x: bool, y: bool, z: bool) -> (r: u8)
    ensures
        r == spec_axis_mask(v, x, y, z),
        r & 0xf8 == v & 0xf8,
        (r & X_EN != 0) == x,
        (r & Y_EN != 0) == y,
        (r & Z_EN != 0) == z,
{
    let mut r = v & !(X_EN | Y_EN | Z_EN);
    r = r | if x { X_EN } else { 0 };
    r = r | if y { Y_EN } else { 0 };
    r = r | if z { Z_EN } else { 0 };
    let xb: u8 = if x { X_EN } else { 0 };
    let yb: u8 = if y { Y_EN } else { 0 };
    let zb: u8 = if z { Z_EN } else { 0 };
    assert(r == (v & !AXIS_MASK) | ((xb | yb) | zb)) by (bit_vector)
        requires
            r == (((v & !(1u8 | 2u8 | 4u8)) | xb) | yb) | zb,
    ;
    assert((xb == 0 || xb == 1) && (yb == 0 || yb == 2) && (zb == 0 || zb == 4) ==> {
        let m = (v & !7u8) | ((xb | yb) | zb);
        &&& m & 0xf8 == v & 0xf8
        &&& (m & 1 != 0) == (xb == 1)
        &&& (m & 2 != 0) == (yb == 2)
        &&& (m & 4 != 0) == (zb == 4)
    }) by (bit_vector);
    r
}

/// Replaces bits 4 to 7 of CTRL_REG4 with the code of `rate`, leaving bits 0
/// to 3 as they were.
pub fn encode_datarate(v: u8, rate: DataRate) -> (r: u8)
    ensures
        r == spec_datarate_field(v, rate),
        r & 0x0f == v & 0x0f,
        r >> 4u8 == rate.spec_bits(),
{
    let b = rate.bits();
    let r = (v & !ODR_MASK) | (b << ODR_OFFSET);
    assert(b < 16 ==> {
        let m = (v & !0xf0u8) | (b << 4u8);
        &&& m & 0x0f == v & 0x0f
        &&& m >> 4u8 == b
    }) by (bit_vector);
    r
}

/// Replaces bits 3 to 5 of CTRL_REG5 with the code of `range` and clears
/// bit 0 (4-wire serial mode), leaving bits 1, 2, 6 and 7 as they were.
pub fn encode_range(v: u8, range: Range) -> (r: u8)
    ensures
        r == spec_range_field(v, range),
        r & 0xc6 == v & 0xc6,
        (r & FS_MASK) >> FS_OFFSET == range.spec_bits(),
        r & SIM == 0,
{
    let b = range.bits();
    let mut r = v & !FS_MASK;
    r = r | ((b << FS_OFFSET) & FS_MASK);
    r = r & !SIM;
    assert(b < 8 ==> {
        let m = ((v & !0x38u8) | ((b << 3u8) & 0x38u8)) & !1u8;
        &&& m & 0xc6 == v & 0xc6
        &&& (m & 0x38) >> 3u8 == b
        &&& m & 1 == 0
    }) by (bit_vector);
    r
}

/// The data-rate code held in bits 4 to 7 of CTRL_REG4.
pub open spec fn datarate_code(ctrl4: u8) -> u8 {
    (ctrl4 & ODR_MASK) >> ODR_OFFSET
}

/// The full-scale code held in bits 3 to 5 of CTRL_REG5.
pub open spec fn range_code(ctrl5: u8) -> u8 {
    (ctrl5 & FS_MASK) >> FS_OFFSET
}

/// Three signed 16-bit axis readings.
#[derive(Copy, Clone, Debug, PartialEq, Eq, Structural)]
pub struct RawSample {
    pub x: i16,
    pub y: i16,
    pub z: i16,
}

/// The signed value of a little-endian pair of bytes.
pub open spec fn le_i16(lo: u8, hi: u8) -> int {
    let u = hi as int * 256 + lo as int;
    if u >= 0x8000 {
        u - 0x10000
    } else {
        u
    }
}

/// Assembles one axis reading from its low and high output bytes.
pub fn axis_from_bytes(lo: u8, hi: u8) -> (r: i16)
    ensures
        r as int == le_i16(lo, hi),
{
    let u: u16 = ((hi as u16) << 8u16) | (lo as u16);
    assert(((hi as u16) << 8u16) | (lo as u16) == hi as u16 * 256 + lo as u16) by (bit_vector);
    if u < 0x8000 {
        u as i16
    } else {
        // two's complement: the top bit carries weight -0x8000
        ((u - 0x8000) as i16) - 0x4000 - 0x4000
    }
}

/// Assembles a sample from the six output bytes OUT_X_L to OUT_Z_H, each
/// axis little-endian.
pub fn decode_raw_sample(bytes: &[u8; 6]) -> (r: RawSample)
    ensures
        r.x as int == le_i16(bytes@[0], bytes@[1]),
        r.y as int == le_i16(bytes@[2], bytes@[3]),
        r.z as int == le_i16(bytes@[4], bytes@[5]),
{
    RawSample {
        x: axis_from_bytes(bytes[0], bytes[1]),
        y: axis_from_bytes(bytes[2], bytes[3]),
        z: axis_from_bytes(bytes[4], bytes[5]),
    }
}

/// A rate written into any CTRL_REG4 value reads back as its code, and so
/// does a range written into any CTRL_REG5 value, which is then also in
/// 4-wire mode; setting the axis bits leaves the rate field as it was.
pub proof fn lemma_fields_read_back(v: u8, rate: DataRate, range: Range, x: bool, y: bool, z: bool)
    ensures
        datarate_code(spec_datarate_field(v, rate)) == rate.spec_bits(),
        range_code(spec_range_field(v, range)) == range.spec_bits(),
        spec_range_field(v, range) & SIM == 0,
        datarate_code(spec_axis_mask(v, x, y, z)) == datarate_code(v),
        spec_axis_mask(v, x, y, z) & AXIS_MASK == axis_bits(x, y, z),
{
    let b = rate.spec_bits();
    let c = range.spec_bits();
    let m = axis_bits(x, y, z);
    assert(b < 16 ==> (((v & !0xf0u8) | (b << 4u8)) & 0xf0u8) >> 4u8 == b) by (bit_vector);
    assert(c < 8 ==> {
        let w = ((v & !0x38u8) | ((c << 3u8) & 0x38u8)) & !1u8;
        &&& (w & 0x38u8) >> 3u8 == c
        &&& w & 1u8 == 0
    }) by (bit_vector);
    lemma_axis_mask(v, x, y, z);
    assert(m < 8 ==> {
        let w = (v & !7u8) | m;
        &&& (w & 0xf0u8) >> 4u8 == (v & 0xf0u8) >> 4u8
        &&& w & 7u8 == m
    }) by (bit_vector);
}

/// Decoding the code of a range gives back that range.
pub proof fn lemma_range_round_trip(r: Range)
    ensures
        Range::spec_from_bits(r.spec_bits()) == Some(r),
{
}

/// Decoding the code of a data rate gives back that rate.
pub proof fn lemma_datarate_round_trip(r: DataRate)
    ensures
        DataRate::spec_from_bits(r.spec_bits()) == Some(r),
{
}

/// A full-scale code is rejected exactly when no range has it.
pub proof fn lemma_range_rejects_unknown(bits: u8)
    ensures
        Range::spec_from_bits(bits) is None <==> (forall|r: Range| #[trigger] r.spec_bits() != bits),
        Range::spec_from_bits(bits) is None <==> bits >= 5,
{
    if bits < 5 {
        let r = Range::spec_from_bits(bits)->0;
        assert(r.spec_bits() == bits);
    }
}

/// A data-rate code is rejected exactly when no rate has it.
pub proof fn lemma_datarate_rejects_unknown(bits: u8)
    ensures
        DataRate::spec_from_bits(bits) is None <==> (forall|r: DataRate| #[trigger] r.spec_bits() != bits),
        DataRate::spec_from_bits(bits) is None <==> bits >= 10,
{
    if bits < 10 {
        let r = DataRate::spec_from_bits(bits)->0;
        assert(r.spec_bits() == bits);
    }
}

/// Setting the axis-enable bits keeps bits 3 to 7 and makes bits 0 to 2
/// exactly the requested set.
pub proof fn lemma_axis_mask(v: u8, x: bool, y: bool, z: bool)
    ensures
        spec_axis_mask(v, x, y, z) & 0xf8 == v & 0xf8,
        spec_axis_mask(v, x, y, z) & 0x07 == axis_bits(x, y, z),
        axis_bits(x, y, z) == (if x { 1int } else { 0 }) + (if y { 2int } else { 0 }) + (if z { 4int } else { 0 }),
{
    let xb: u8 = if x { X_EN } else { 0 };
    let yb: u8 = if y { Y_EN } else { 0 };
    let zb: u8 = if z { Z_EN } else { 0 };
    assert((xb == 0 || xb == 1) && (yb == 0 || yb == 2) && (zb == 0 || zb == 4) ==> {
        let m = (v & !7u8) | ((xb | yb) | zb);
        &&& m & 0xf8 == v & 0xf8
        &&& m & 0x07 == (xb | yb) | zb
        &&& (xb | yb) | zb == xb + yb + zb
    }) by (bit_vector);
}

} // verus!
