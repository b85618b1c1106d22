use igb::regs::{
    read_mac, Flags, CTRL, CTRL_EXT, CTRL_EXT_DRV_LOAD, CTRL_FD, CTRL_FRCDPX, CTRL_FRCSPD,
    CTRL_RST, CTRL_SLU, CTRL_SPD_1000, EIMC, EIMS, EIMS_OTHER, EIMS_RXTXQ, MDIC, RCTL, RCTL_RXEN,
    RDBAH0, RDBAL0, RDH0, RDLEN0, RDT0, RXDCTL0, SRRCTL0, STATUS, STATUS_FD, STATUS_LU,
    STATUS_PHYRA, TCTL, TCTL_EN, TDBAH0, TDBAL0, TDH0, TDLEN0, TDT0, TXDCTL0,
};

#[test]
fn register_offsets() {
    assert_eq!(CTRL, 0x0000);
    assert_eq!(STATUS, 0x0008);
    assert_eq!(CTRL_EXT, 0x0018);
    assert_eq!(MDIC, 0x0020);
    assert_eq!(RCTL, 0x0100);
    assert_eq!(TCTL, 0x0400);
    assert_eq!(EIMS, 0x1524);
    assert_eq!(EIMC, 0x1528);
    assert_eq!(
        [RDBAL0, RDBAH0, RDLEN0, SRRCTL0, RDH0, RDT0, RXDCTL0],
        [0xC000, 0xC004, 0xC008, 0xC00C, 0xC010, 0xC018, 0xC028]
    );
    assert_eq!(
        [TDBAL0, TDBAH0, TDLEN0, TDH0, TDT0, TXDCTL0],
        [0xE000, 0xE004, 0xE008, 0xE010, 0xE018, 0xE028]
    );
}

#[test]
fn named_bits() {
    assert_eq!(Flags::<CTRL>::fd().bits(), 1 << 0);
    assert_eq!(Flags::<CTRL>::slu().bits(), 1 << 6);
    assert_eq!(Flags::<CTRL>::spd_1000().bits(), 1 << 9);
    assert_eq!(Flags::<CTRL>::frcspd().bits(), 1 << 11);
    assert_eq!(Flags::<CTRL>::frcdpx().bits(), 1 << 12);
    assert_eq!(Flags::<CTRL>::rst().bits(), 1 << 26);
    assert_eq!(Flags::<CTRL_EXT>::drv_load().bits(), 1 << 28);
    assert_eq!(Flags::<STATUS>::fd().bits(), 1 << 0);
    assert_eq!(Flags::<STATUS>::lu().bits(), 1 << 1);
    assert_eq!(Flags::<STATUS>::phyra().bits(), 1 << 10);
    assert_eq!(Flags::<RCTL>::rxen().bits(), 1 << 1);
    assert_eq!(Flags::<TCTL>::en().bits(), 1 << 1);
    assert_eq!(Flags::<SRRCTL0>::desctype().bits(), 1 << 25);
    assert_eq!(Flags::<RXDCTL0>::wthresh().bits(), 1 << 16);
    assert_eq!(Flags::<RXDCTL0>::en().bits(), 1 << 25);
    assert_eq!(Flags::<TXDCTL0>::wthresh().bits(), 1 << 16);
    assert_eq!(Flags::<TXDCTL0>::en().bits(), 1 << 25);
    assert_eq!(Flags::<MDIC>::ready().bits(), 1 << 28);
    assert_eq!(
        [CTRL_FD, CTRL_SLU, CTRL_SPD_1000, CTRL_FRCSPD, CTRL_FRCDPX, CTRL_RST],
        [0x1, 0x40, 0x200, 0x800, 0x1000, 0x0400_0000]
    );
    assert_eq!([STATUS_FD, STATUS_LU, STATUS_PHYRA], [0x1, 0x2, 0x400]);
    assert_eq!([RCTL_RXEN, TCTL_EN, CTRL_EXT_DRV_LOAD], [0x2, 0x2, 0x1000_0000]);
    assert_eq!(EIMS_RXTXQ | EIMS_OTHER, 0xFFFF | (1 << 31));
}

#[test]
fn flags_know_their_register() {
    assert_eq!(Flags::<CTRL>::reg(), 0x0000);
    assert_eq!(Flags::<RXDCTL0>::reg(), 0xC028);
    assert_eq!(Flags::<TDT0>::reg(), 0xE018);
}

#[test]
fn empty_has_no_bits_and_is_contained_in_all() {
    assert_eq!(Flags::<RCTL>::empty().bits(), 0);
    assert!(Flags::<RCTL>::empty().contains(Flags::empty()));
    assert!(Flags::<RCTL>::rxen().contains(Flags::empty()));
    assert!(!Flags::<RCTL>::empty().contains(Flags::<RCTL>::rxen()));
}

#[test]
fn contains_asks_for_every_bit() {
    let both = Flags::<RXDCTL0>::wthresh().union(Flags::<RXDCTL0>::en());
    assert_eq!(both.bits(), 0x0201_0000);
    assert!(both.contains(Flags::<RXDCTL0>::wthresh()));
    assert!(both.contains(Flags::<RXDCTL0>::en()));
    assert!(both.contains(both));
    assert!(!Flags::<RXDCTL0>::en().contains(both));
    assert!(Flags::<RXDCTL0>::from_bits(0xFFFF_FFFF).contains(both));
    assert!(!Flags::<RXDCTL0>::from_bits(0xFDFF_FFFF).contains(both));
}

#[test]
fn union_keeps_the_bits_of_both() {
    let reg = Flags::<CTRL_EXT>::from_bits(0x0000_00F0);
    assert_eq!(Flags::<CTRL_EXT>::drv_load().union(reg).bits(), 0x1000_00F0);
    assert_eq!(reg.union(reg).bits(), 0x0000_00F0);
}

#[test]
fn from_bits_keeps_every_bit() {
    assert_eq!(Flags::<STATUS>::from_bits(0xDEAD_BEEF).bits(), 0xDEAD_BEEF);
}

#[test]
fn station_address_bytes() {
    assert_eq!(read_mac(0x1234_5678, 0xFFFF_9ABC), [0x78, 0x56, 0x34, 0x12, 0xBC, 0x9A]);
}
