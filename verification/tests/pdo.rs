use stusb4500::pdo::{FastSwapSupport, FixedPdo, Pdo, VariablePdo, BatteryPdo, AugmentedPdo};

#[test]
fn word_round_trip_every_tag() {
    let words: [u32; 8] = [
        0x0000_0000,
        0x1234_5678,
        0x3FFF_FFFF,
        0x4ABC_DEF0,
        0x8000_0001,
        0xBFFF_FFFF,
        0xC123_4567,
        0xFFFF_FFFF,
    ];
    for &w in words.iter() {
        let pdo = Pdo::from_bits(w).unwrap();
        assert_eq!(pdo.bits(), w);
    }
}

#[test]
fn decode_dispatches_on_tag() {
    assert!(matches!(Pdo::from_bits(0x0123_4567), Some(Pdo::Fixed(_))));
    assert!(matches!(Pdo::from_bits(0x4123_4567), Some(Pdo::Variable(_))));
    assert!(matches!(Pdo::from_bits(0x8123_4567), Some(Pdo::Battery(_))));
    assert!(matches!(Pdo::from_bits(0xC123_4567), Some(Pdo::Augmented(_))));
}

#[test]
fn new_fixed_layout() {
    let pdo = Pdo::new_fixed(0x155, 0x2AA);
    let w = pdo.bits();
    assert_eq!((w >> 10) & 0x3FF, 0x155);
    assert_eq!(w & 0x3FF, 0x2AA);
    assert_eq!(w >> 30, 0);
    assert_eq!(w, (0x155 << 10) | 0x2AA);
    match pdo {
        Pdo::Fixed(f) => {
            assert!(!f.dual_role_power());
            assert!(!f.dual_role_data());
            assert!(!f.usb_communications_capable());
            assert!(!f.higher_capability());
            assert!(!f.unconstrained_power());
            assert_eq!(f.fast_role_swap(), FastSwapSupport::NotSupported);
            assert_eq!(f.voltage(), 0x155);
            assert_eq!(f.current(), 0x2AA);
            assert_eq!(f.fixed(), 0);
        }
        _ => panic!("new_fixed must produce a fixed PDO"),
    }
}

#[test]
fn new_fixed_truncates_to_ten_bits() {
    let pdo = Pdo::new_fixed(0xFFFF, 0x7DF);
    let w = pdo.bits();
    assert_eq!((w >> 10) & 0x3FF, 0x3FF);
    assert_eq!(w & 0x3FF, 0x3DF);
    assert_eq!(w >> 30, 0);
}

#[test]
fn new_fixed_exact_word() {
    assert_eq!(Pdo::new_fixed(0x190, 0x12C).bits(), 0x0006_412C);
    assert_eq!(Pdo::new_fixed(0, 0).bits(), 0);
}

#[test]
fn fast_swap_ordinal_round_trip() {
    let levels = [
        FastSwapSupport::NotSupported,
        FastSwapSupport::DefaultUsb,
        FastSwapSupport::_1A5_5V,
        FastSwapSupport::_3A0_5V,
    ];
    for &level in levels.iter() {
        assert_eq!(FastSwapSupport::from(level.to_u32()), level);
    }
    assert_eq!(FastSwapSupport::NotSupported.to_u32(), 0);
    assert_eq!(FastSwapSupport::DefaultUsb.to_u32(), 1);
    assert_eq!(FastSwapSupport::_1A5_5V.to_u32(), 2);
    assert_eq!(FastSwapSupport::_3A0_5V.to_u32(), 3);
}

#[test]
fn fast_swap_labels() {
    assert_eq!(FastSwapSupport::NotSupported.label(), "Not supported");
    assert_eq!(FastSwapSupport::DefaultUsb.label(), "0.5A @ 5V");
    assert_eq!(FastSwapSupport::_1A5_5V.label(), "1.5A @ 5V");
    assert_eq!(FastSwapSupport::_3A0_5V.label(), "3.0A @ 5V");
}

#[test]
fn fast_swap_from_masks_low_two_bits() {
    assert_eq!(FastSwapSupport::from(0), FastSwapSupport::NotSupported);
    assert_eq!(FastSwapSupport::from(5), FastSwapSupport::DefaultUsb);
    assert_eq!(FastSwapSupport::from(0xFFFF_FFFE), FastSwapSupport::_1A5_5V);
    assert_eq!(FastSwapSupport::from(7), FastSwapSupport::_3A0_5V);
}

#[test]
fn mutators_are_no_ops_on_non_fixed_variants() {
    let words: [u32; 3] = [0x4123_4567, 0x89AB_CDEF, 0xC000_1234];
    for &w in words.iter() {
        let mut pdo = Pdo::from_bits(w).unwrap();
        pdo.dual_role_power(true);
        pdo.dual_role_data(true);
        pdo.usb_communications_capable(true);
        pdo.higher_capability(true);
        pdo.unconstrained_power(true);
        assert_eq!(pdo.bits(), w);
    }
}

#[test]
fn mutators_set_and_clear_flags_on_fixed() {
    let mut pdo = Pdo::new_fixed(1, 2);
    let base = pdo.bits();
    pdo.dual_role_power(true);
    assert_eq!(pdo.bits(), base | 0x2000_0000);
    pdo.dual_role_data(true);
    assert_eq!(pdo.bits(), base | 0x2200_0000);
    pdo.usb_communications_capable(true);
    assert_eq!(pdo.bits(), base | 0x2600_0000);
    pdo.higher_capability(true);
    assert_eq!(pdo.bits(), base | 0x3600_0000);
    pdo.unconstrained_power(true);
    assert_eq!(pdo.bits(), base | 0x3E00_0000);
    pdo.dual_role_power(false)
        .dual_role_data(false)
        .usb_communications_capable(false)
        .higher_capability(false)
        .unconstrained_power(false);
    assert_eq!(pdo.bits(), base);
}

#[test]
fn fixed_setters_and_getters() {
    let mut f = FixedPdo::new(0, 0);
    f.set_voltage(0x3FF);
    f.set_current(0x001);
    assert_eq!(f.voltage(), 0x3FF);
    assert_eq!(f.current(), 0x001);
    f.set_fast_role_swap(FastSwapSupport::_1A5_5V);
    assert_eq!(f.fast_role_swap(), FastSwapSupport::_1A5_5V);
    assert_eq!((f.bits() >> 23) & 3, 2);
    f.set_voltage(0);
    assert_eq!(f.voltage(), 0);
    assert_eq!(f.current(), 0x001);
}

#[test]
fn defaults_carry_their_tags() {
    assert_eq!(FixedPdo::default().bits(), 0x0000_0000);
    assert_eq!(VariablePdo::default().bits(), 0x4000_0000);
    assert_eq!(BatteryPdo::default().bits(), 0x8000_0000);
    assert_eq!(AugmentedPdo::default().bits(), 0xC000_0000);
    assert_eq!(FastSwapSupport::default(), FastSwapSupport::NotSupported);
}

#[test]
fn variable_and_battery_fields() {
    let mut v = VariablePdo::default();
    v.set_max_voltage(0x123);
    v.set_min_voltage(0x0AB);
    v.set_current(0x3FF);
    assert_eq!(v.variable(), 1);
    assert_eq!(v.max_voltage(), 0x123);
    assert_eq!(v.min_voltage(), 0x0AB);
    assert_eq!(v.current(), 0x3FF);
    assert_eq!(v.bits(), 0x4000_0000 | (0x123 << 20) | (0x0AB << 10) | 0x3FF);

    let mut b = BatteryPdo::default();
    b.set_max_voltage(0x200);
    b.set_min_voltage(0x100);
    b.set_power(0x055);
    assert_eq!(b.battery(), 2);
    assert_eq!(b.max_voltage(), 0x200);
    assert_eq!(b.min_voltage(), 0x100);
    assert_eq!(b.power(), 0x055);
}

#[test]
fn augmented_fields() {
    let mut a = AugmentedPdo::default();
    a.set_max_voltage(0xFF);
    a.set_min_voltage(0x1FF);
    a.set_max_current(0x7F);
    assert_eq!(a.battery(), 3);
    assert_eq!(a.progdev(), 0);
    assert_eq!(a.max_voltage(), 0xFF);
    assert_eq!(a.min_voltage(), 0x1FF);
    assert_eq!(a.max_current(), 0x7F);
}
