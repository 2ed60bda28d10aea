use lis3dsh::register::{
    axis_from_bytes, decode_raw_sample, encode_axis_mask, encode_datarate, encode_range,
    DataRate, DataStatus, Range, Register,
};

const RANGES: [Range; 5] = [Range::G2, Range::G4, Range::G6, Range::G8, Range::G16];
const RATES: [DataRate; 10] = [
    DataRate::PowerDown,
    DataRate::Hz_3,
    DataRate::Hz_6,
    DataRate::Hz_12,
    DataRate::Hz_25,
    DataRate::Hz_50,
    DataRate::Hz_100,
    DataRate::Hz_400,
    DataRate::Hz_800,
    DataRate::Hz_1600,
];

#[test]
fn range_round_trip() {
    for r in RANGES {
        assert_eq!(Range::from_bits(r.bits()), Some(r));
    }
    assert_eq!(Range::G8.bits(), 3);
    assert_eq!(Range::G16.bits(), 4);
}

#[test]
fn datarate_round_trip() {
    for r in RATES {
        assert_eq!(DataRate::from_bits(r.bits()), Some(r));
    }
    assert_eq!(DataRate::Hz_100.bits(), 6);
    assert_eq!(DataRate::Hz_1600.bits(), 9);
}

#[test]
fn unknown_codes_are_rejected() {
    for c in 0u8..8 {
        assert_eq!(Range::from_bits(c).is_none(), c >= 5);
    }
    for c in 0u8..16 {
        assert_eq!(DataRate::from_bits(c).is_none(), c >= 10);
    }
    assert_eq!(Range::from_bits(0xFF), None);
}

#[test]
fn axis_mask_keeps_high_bits() {
    for v in 0u16..256 {
        let v = v as u8;
        for m in 0u8..8 {
            let (x, y, z) = (m & 1 != 0, m & 2 != 0, m & 4 != 0);
            let r = encode_axis_mask(v, x, y, z);
            assert_eq!(r & 0xF8, v & 0xF8);
            assert_eq!(r & 0x07, m);
        }
    }
}

#[test]
fn field_encoders() {
    assert_eq!(encode_datarate(0x0F, DataRate::Hz_100), 0x6F);
    assert_eq!(encode_datarate(0xF0, DataRate::PowerDown), 0x00);
    assert_eq!(encode_range(0xFF, Range::G2), 0xC6);
    assert_eq!(encode_range(0x01, Range::G8), 0x18);
}

#[test]
fn status_all_set() {
    let s = DataStatus::from(0xFF);
    assert!(s.zyxor() && s.zor() && s.yor() && s.xor());
    assert!(s.zyxda() && s.zda() && s.yda() && s.xda());
}

#[test]
fn status_none_set() {
    let s = DataStatus::from(0x00);
    assert!(!s.zyxor() && !s.zor() && !s.yor() && !s.xor());
    assert!(!s.zyxda() && !s.zda() && !s.yda() && !s.xda());
}

#[test]
fn status_combined_data_available_only() {
    let s = DataStatus::from(0x08);
    assert!(s.zyxda());
    assert!(!s.zyxor() && !s.zor() && !s.yor() && !s.xor());
    assert!(!s.zda() && !s.yda() && !s.xda());
}

#[test]
fn register_commands() {
    assert_eq!(Register::WHOAMI.addr(), 0x0F);
    assert_eq!(Register::WHOAMI.read(), 0x8F);
    assert_eq!(Register::WHOAMI.write(), 0x0F);
    assert_eq!(Register::STATUS.read(), 0xA7);
    assert_eq!(Register::OUT_X_L.read(), 0xA8);
    assert_eq!(Register::CTRL_REG6.addr(), 0x26);
    assert_eq!(Register::OUT_Z_H.write(), 0x2D);
}

#[test]
fn raw_bytes_assemble_little_endian() {
    let s = decode_raw_sample(&[0x34, 0x12, 0x00, 0x00, 0xCD, 0xAB]);
    assert_eq!(s.x, 0x1234);
    assert_eq!(s.y, 0);
    assert_eq!(s.z, 0xABCDu16 as i16);
    assert_eq!(axis_from_bytes(0xFF, 0xFF), -1);
    assert_eq!(axis_from_bytes(0x00, 0x80), i16::MIN);
    assert_eq!(axis_from_bytes(0xFF, 0x7F), i16::MAX);
}

#[test]
fn scales_and_rates() {
    assert_eq!(Range::G2.scale(), 6);
    assert_eq!(Range::G16.scale(), 73);
    assert_eq!(DataRate::Hz_12.sample_rate_millihertz(), 12_500);
    assert_eq!(DataRate::Hz_3.sample_rate_millihertz(), 3_125);
    assert_eq!(DataRate::PowerDown.sample_rate_millihertz(), 0);
}
