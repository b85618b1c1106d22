use igb::igb::{Igb, IgbStatus, Speed, STATUS_LINK_BITS};

#[test]
fn speed_is_decoded_from_bits_seven_and_six() {
    assert_eq!(Igb::status(0b0000_0000).speed, Speed::Mb10);
    assert_eq!(Igb::status(0b0100_0000).speed, Speed::Mb100);
    assert_eq!(Igb::status(0b1000_0000).speed, Speed::Mb1000);
    assert_eq!(Igb::status(0b1100_0000).speed, Speed::Mb1000);
}

#[test]
fn each_flag_follows_its_own_bit() {
    assert_eq!(
        Igb::status(0x0000_0001),
        IgbStatus { full_duplex: true, link_up: false, speed: Speed::Mb10, phy_reset_asserted: false }
    );
    assert_eq!(
        Igb::status(0x0000_0002),
        IgbStatus { full_duplex: false, link_up: true, speed: Speed::Mb10, phy_reset_asserted: false }
    );
    assert_eq!(
        Igb::status(0x0000_0400),
        IgbStatus { full_duplex: false, link_up: false, speed: Speed::Mb10, phy_reset_asserted: true }
    );
}

#[test]
fn status_of_a_forced_gigabit_link() {
    assert_eq!(
        Igb::status(0x0000_0083),
        IgbStatus { full_duplex: true, link_up: true, speed: Speed::Mb1000, phy_reset_asserted: false }
    );
}

#[test]
fn status_of_all_ones_and_all_zeros() {
    assert_eq!(
        Igb::status(u32::MAX),
        IgbStatus { full_duplex: true, link_up: true, speed: Speed::Mb1000, phy_reset_asserted: true }
    );
    assert_eq!(
        Igb::status(0),
        IgbStatus { full_duplex: false, link_up: false, speed: Speed::Mb10, phy_reset_asserted: false }
    );
}

#[test]
fn other_bits_do_not_change_the_status() {
    assert_eq!(STATUS_LINK_BITS, 0x4C3);
    for raw in [0u32, 1, 2, 3, 0x40, 0x43, 0x80, 0xC1, 0x400, 0x4C3] {
        let plain = Igb::status(raw);
        assert_eq!(Igb::status(raw | !STATUS_LINK_BITS), plain);
        assert_eq!(Igb::status(raw | 0x0000_003C), plain);
        assert_eq!(Igb::status(raw | 0x8000_0000), plain);
    }
}

#[test]
fn status_read_twice_is_the_same() {
    for raw in [0u32, 0x83, 0x4C3, 0xDEAD_BEEF, u32::MAX] {
        assert_eq!(Igb::status(raw), Igb::status(raw));
    }
}

#[test]
fn speeds_are_ordered() {
    assert!(Speed::Mb10 < Speed::Mb100);
    assert!(Speed::Mb100 < Speed::Mb1000);
}

#[test]
fn mac_is_low_register_then_low_half_of_high() {
    assert_eq!(Igb::mac(0x4433_2211, 0x8000_6655), [0x11, 0x22, 0x33, 0x44, 0x55, 0x66]);
    assert_eq!(Igb::mac(0, 0), [0, 0, 0, 0, 0, 0]);
    assert_eq!(Igb::mac(u32::MAX, u32::MAX), [0xFF; 6]);
}
