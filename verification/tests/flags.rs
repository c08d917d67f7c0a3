use wintab_lite::{CRC, CXL, CXO, CXS, HWC, TPS, WTPKT};

#[test]
fn test_wtpkt() {
    let basic_combo =
        WTPKT::X().union(WTPKT::Y()).union(WTPKT::BUTTONS()).union(WTPKT::NORMAL_PRESSURE());
    println!("{:?}", basic_combo);
    assert_eq!(basic_combo.bits(), 1472);
}

#[test]
fn wtpkt_flag_values() {
    assert_eq!(WTPKT::CONTEXT().bits(), 0b00000000000001);
    assert_eq!(WTPKT::STATUS().bits(), 0b00000000000010);
    assert_eq!(WTPKT::TIME().bits(), 0b00000000000100);
    assert_eq!(WTPKT::CHANGED().bits(), 0b00000000001000);
    assert_eq!(WTPKT::SERIAL_NUMBER().bits(), 0b00000000010000);
    assert_eq!(WTPKT::CURSOR().bits(), 0b00000000100000);
    assert_eq!(WTPKT::BUTTONS().bits(), 0b00000001000000);
    assert_eq!(WTPKT::X().bits(), 0b00000010000000);
    assert_eq!(WTPKT::Y().bits(), 0b00000100000000);
    assert_eq!(WTPKT::Z().bits(), 0b00001000000000);
    assert_eq!(WTPKT::NORMAL_PRESSURE().bits(), 0b00010000000000);
    assert_eq!(WTPKT::TANGENT_PRESSURE().bits(), 0b00100000000000);
    assert_eq!(WTPKT::ORIENTATION().bits(), 0b01000000000000);
    assert_eq!(WTPKT::ROTATION().bits(), 0b10000000000000);
    assert_eq!(WTPKT::all().bits(), 0b11111111111111);
    assert_eq!(WTPKT::empty().bits(), 0);
    assert_eq!(WTPKT::default(), WTPKT::empty());
}

#[test]
fn cxo_flag_values() {
    assert_eq!(CXO::SYSTEM().bits(), 0b0000000000000001);
    assert_eq!(CXO::PEN().bits(), 0b0000000000000010);
    assert_eq!(CXO::MESSAGES().bits(), 0b0000000000000100);
    assert_eq!(CXO::MARGIN().bits(), 0b1000000000000000);
    assert_eq!(CXO::MGNINSIDE().bits(), 0b0100000000000000);
    assert_eq!(CXO::CSRMESSAGES().bits(), 0b0000000000001000);
    assert_eq!(CXO::all().bits(), 0b1100000000001111);
}

#[test]
fn cxs_cxl_flag_values() {
    assert_eq!(CXS::DISABLED().bits(), 0b001);
    assert_eq!(CXS::OBSCURED().bits(), 0b010);
    assert_eq!(CXS::ONTOP().bits(), 0b100);
    assert_eq!(CXS::all().bits(), 0b111);
    assert_eq!(CXL::INSIZE().bits(), 0b00001);
    assert_eq!(CXL::INASPECT().bits(), 0b00010);
    assert_eq!(CXL::SENSITIVITY().bits(), 0b00100);
    assert_eq!(CXL::MARGIN().bits(), 0b01000);
    assert_eq!(CXL::SYSOUT().bits(), 0b10000);
    assert_eq!(CXL::all().bits(), 0b11111);
}

#[test]
fn hwc_crc_tps_flag_values() {
    assert_eq!(HWC::INTEGRATED().bits(), 0b0001);
    assert_eq!(HWC::TOUCH().bits(), 0b0010);
    assert_eq!(HWC::HARDPROX().bits(), 0b0100);
    assert_eq!(HWC::PHYSID_CURSORS().bits(), 0b1000);
    assert_eq!(HWC::all().bits(), 0b1111);
    assert_eq!(CRC::CRC_MULTIMODE().bits(), 0b001);
    assert_eq!(CRC::CRC_AGGREGATE().bits(), 0b010);
    assert_eq!(CRC::CRC_INVERT().bits(), 0b100);
    assert_eq!(CRC::all().bits(), 0b111);
    assert_eq!(TPS::PROXIMITY().bits(), 0b00001);
    assert_eq!(TPS::QUEUE_ERR().bits(), 0b00010);
    assert_eq!(TPS::MARGIN().bits(), 0b00100);
    assert_eq!(TPS::GRAB().bits(), 0b01000);
    assert_eq!(TPS::INVERT().bits(), 0b10000);
    assert_eq!(TPS::all().bits(), 0b11111);
    assert_eq!(TPS::default(), TPS::empty());
}

fn wtpkt_flags() -> Vec<WTPKT> {
    vec![
        WTPKT::CONTEXT(),
        WTPKT::STATUS(),
        WTPKT::TIME(),
        WTPKT::CHANGED(),
        WTPKT::SERIAL_NUMBER(),
        WTPKT::CURSOR(),
        WTPKT::BUTTONS(),
        WTPKT::X(),
        WTPKT::Y(),
        WTPKT::Z(),
        WTPKT::NORMAL_PRESSURE(),
        WTPKT::TANGENT_PRESSURE(),
        WTPKT::ORIENTATION(),
        WTPKT::ROTATION(),
    ]
}

#[test]
fn union_contains_a_flag_of_either_side() {
    let samples: [u32; 6] = [0, 0x80, 0x5c0, 0x3fff, 0x2a2a, 0x4000_0001];
    for a_bits in samples {
        for b_bits in samples {
            let a = WTPKT::from_bits_retain(a_bits);
            let b = WTPKT::from_bits_retain(b_bits);
            for f in wtpkt_flags() {
                assert_eq!(a.union(b).contains(f), a.contains(f) || b.contains(f));
            }
        }
    }
}

#[test]
fn empty_contains_no_flag() {
    for f in wtpkt_flags() {
        assert!(!WTPKT::empty().contains(f));
    }
    assert!(!CXO::empty().contains(CXO::MARGIN()));
    assert!(!TPS::empty().contains(TPS::GRAB()));
    assert!(WTPKT::empty().is_empty());
}

#[test]
fn all_contains_the_named_flags_and_no_others() {
    for f in wtpkt_flags() {
        assert!(WTPKT::all().contains(f));
    }
    for position in 0..32u32 {
        let single = WTPKT::from_bits_retain(1 << position);
        assert_eq!(WTPKT::all().contains(single), position < 14);
        let option = CXO::from_bits_retain(1 << position);
        assert_eq!(CXO::all().contains(option), position < 4 || position == 14 || position == 15);
    }
    assert!(WTPKT::all().is_all());
    assert!(!WTPKT::X().is_all());
    assert!(WTPKT::from_bits_retain(0xFFFF_FFFF).is_all());
}

#[test]
fn contains_is_not_about_single_flags_only() {
    let position = WTPKT::X().union(WTPKT::Y());
    let asked = position.union(WTPKT::NORMAL_PRESSURE());
    assert!(asked.contains(position));
    assert!(!position.contains(asked));
    assert!(asked.contains(WTPKT::empty()));
    assert!(WTPKT::empty().contains(WTPKT::empty()));
}

#[test]
fn intersection_difference_complement() {
    let a = WTPKT::X().union(WTPKT::Y()).union(WTPKT::Z());
    let b = WTPKT::Y().union(WTPKT::Z()).union(WTPKT::BUTTONS());
    assert_eq!(a.intersection(b), WTPKT::Y().union(WTPKT::Z()));
    assert_eq!(a.intersection(b).bits(), 0x300);
    assert_eq!(a.difference(b), WTPKT::X());
    assert_eq!(b.difference(a), WTPKT::BUTTONS());
    assert_eq!(a.complement().bits(), 0x3fff & !0x380);
    assert_eq!(WTPKT::all().complement(), WTPKT::empty());
    assert_eq!(WTPKT::empty().complement(), WTPKT::all());
    assert_eq!(WTPKT::from_bits_retain(0x8000_0000).complement(), WTPKT::all());
    assert!(a.intersects(b));
    assert!(!a.intersects(WTPKT::BUTTONS()));
    assert!(!a.intersects(WTPKT::empty()));
}

#[test]
fn insert_and_remove() {
    let mut options = CXO::empty();
    options.insert(CXO::SYSTEM());
    options.insert(CXO::MESSAGES());
    assert_eq!(options.bits(), 0b101);
    assert!(options.contains(CXO::SYSTEM()));
    options.remove(CXO::SYSTEM());
    assert_eq!(options, CXO::MESSAGES());
    options.remove(CXO::PEN());
    assert_eq!(options, CXO::MESSAGES());
}

#[test]
fn from_bits_knows_the_named_flags() {
    assert_eq!(WTPKT::from_bits(1472), Some(WTPKT::from_bits_retain(1472)));
    assert_eq!(WTPKT::from_bits(0), Some(WTPKT::empty()));
    assert_eq!(WTPKT::from_bits(0x3fff), Some(WTPKT::all()));
    assert_eq!(WTPKT::from_bits(0x4000), None);
    assert_eq!(WTPKT::from_bits(0x8000_0080), None);
    assert_eq!(CXO::from_bits(0x10), None);
    assert_eq!(CXO::from_bits(0xC00F), Some(CXO::all()));
    assert_eq!(WTPKT::from_bits_truncate(0x8000_4081).bits(), 0x81);
    assert_eq!(CXO::from_bits_truncate(0xFFFF_FFFF), CXO::all());
    assert_eq!(WTPKT::from_bits_retain(0x8000_4081).bits(), 0x8000_4081);
    assert!(!WTPKT::from_bits_retain(0x8000_0000).is_empty());
}

#[test]
fn flag_sets_of_other_kinds_follow_the_same_algebra() {
    let locks = CXL::INSIZE().union(CXL::SYSOUT());
    assert_eq!(locks.bits(), 0b10001);
    assert!(locks.contains(CXL::SYSOUT()));
    assert!(!locks.contains(CXL::MARGIN()));
    let status = CXS::DISABLED().union(CXS::ONTOP()).intersection(CXS::ONTOP());
    assert_eq!(status, CXS::ONTOP());
    let hardware = HWC::all().difference(HWC::TOUCH());
    assert_eq!(hardware.bits(), 0b1101);
    let cursor = CRC::CRC_INVERT().complement();
    assert_eq!(cursor.bits(), 0b011);
    let packet = TPS::PROXIMITY().union(TPS::INVERT());
    assert!(packet.intersects(TPS::INVERT()));
    assert_eq!(packet.bits(), 0b10001);
}
