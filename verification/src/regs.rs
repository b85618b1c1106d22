//! The device's register map: byte offsets into the memory-mapped register file,
//! and the named bits of each register the driver touches.
//!
//! A register value is a [`Flags`] tagged with the register's offset, so bits of one
//! register cannot be combined with or tested against bits of another.

use vstd::prelude::*;

verus! {

/// Device control.
pub const CTRL: u32 = 0x0000;

/// Device status.
pub const STATUS: u32 = 0x0008;

/// Extended device control.
pub const CTRL_EXT: u32 = 0x0018;

/// Management data interface to the PHY.
pub const MDIC: u32 = 0x0020;

/// Receive control.
pub const RCTL: u32 = 0x0100;

/// Transmit control.
pub const TCTL: u32 = 0x0400;

/// Extended interrupt mask set.
pub const EIMS: u32 = 0x1524;

/// Extended interrupt mask clear.
pub const EIMC: u32 = 0x1528;

/// Receive address low, entry 0.
pub const RAL0: u32 = 0x5400;

/// Receive address high, entry 0.
pub const RAH0: u32 = 0x5404;

/// Receive descriptor ring base, low half.
pub const RDBAL0: u32 = 0xC000;

/// Receive descriptor ring base, high half.
pub const RDBAH0: u32 = 0xC004;

/// Receive descriptor ring length.
pub const RDLEN0: u32 = 0xC008;

/// Split and replication receive control.
pub const SRRCTL0: u32 = 0xC00C;

/// Receive descriptor head.
pub const RDH0: u32 = 0xC010;

/// Receive descriptor tail.
pub const RDT0: u32 = 0xC018;

/// Receive queue control.
pub const RXDCTL0: u32 = 0xC028;

/// Transmit descriptor ring base, low half.
pub const TDBAL0: u32 = 0xE000;

/// Transmit descriptor ring base, high half.
pub const TDBAH0: u32 = 0xE004;

/// Transmit descriptor ring length.
pub const TDLEN0: u32 = 0xE008;

/// Transmit descriptor head.
pub const TDH0: u32 = 0xE010;

/// Transmit descriptor tail.
pub const TDT0: u32 = 0xE018;

/// Transmit queue control.
pub const TXDCTL0: u32 = 0xE028;

/// CTRL: full duplex.
pub const CTRL_FD: u32 = 0x0000_0001;

/// CTRL: set link up.
pub const CTRL_SLU: u32 = 0x0000_0040;

/// CTRL: speed selection, 1000 Mb/s.
pub const CTRL_SPD_1000: u32 = 0x0000_0200;

/// CTRL: force speed.
pub const CTRL_FRCSPD: u32 = 0x0000_0800;

/// CTRL: force duplex.
pub const CTRL_FRCDPX: u32 = 0x0000_1000;

/// CTRL: device reset; reads back clear once the reset is complete.
pub const CTRL_RST: u32 = 0x0400_0000;

/// CTRL_EXT: a driver has taken ownership of the device.
pub const CTRL_EXT_DRV_LOAD: u32 = 0x1000_0000;

/// STATUS: full duplex.
pub const STATUS_FD: u32 = 0x0000_0001;

/// STATUS: link up.
pub const STATUS_LU: u32 = 0x0000_0002;

/// STATUS: PHY reset asserted.
pub const STATUS_PHYRA: u32 = 0x0000_0400;

/// RCTL: receiver enable.
pub const RCTL_RXEN: u32 = 0x0000_0002;

/// TCTL: transmit enable.
pub const TCTL_EN: u32 = 0x0000_0002;

/// SRRCTL: advanced descriptors, one buffer, no header split.
pub const SRRCTL_DESCTYPE: u32 = 0x0200_0000;

/// RXDCTL: write-back threshold of one descriptor.
pub const RXDCTL_WTHRESH: u32 = 0x0001_0000;

/// RXDCTL: queue enable.
pub const RXDCTL_EN: u32 = 0x0200_0000;

/// TXDCTL: write-back threshold of one descriptor.
pub const TXDCTL_WTHRESH: u32 = 0x0001_0000;

/// TXDCTL: queue enable.
pub const TXDCTL_EN: u32 = 0x0200_0000;

/// MDIC: the sixteen data bits.
pub const MDIC_DATA: u32 = 0x0000_FFFF;

/// MDIC: write the data bits to the addressed PHY register.
pub const MDIC_OP_WRITE: u32 = 0x0400_0000;

/// MDIC: read the addressed PHY register into the data bits.
pub const MDIC_OP_READ: u32 = 0x0800_0000;

/// MDIC: the transaction has completed.
pub const MDIC_READY: u32 = 0x1000_0000;

/// Every interrupt cause of EIMS and EIMC.
pub const ALL_INTERRUPTS: u32 = 0xFFFF_FFFF;

/// The sixteen queue causes of EIMS.
pub const EIMS_RXTXQ: u32 = 0x0000_FFFF;

/// The "other" cause of EIMS.
pub const EIMS_OTHER: u32 = 0x8000_0000;

/// A value of the register at byte offset `REG`, as a set of its bits.
#[derive(Debug, Clone, Copy)]
pub struct Flags<const REG: u32> {
    bits: u32,
}

impl<const REG: u32> View for Flags<REG> {
    type V = u32;

    closed spec fn view(&self) -> u32 {
        self.bits
    }
}

impl<const REG: u32> Flags<REG> {
    /// Byte offset of the register.
    pub fn reg() -> (r: u32)
        ensures
            r == REG,
    {
        REG
    }

    /// No bit set.
    pub fn empty() -> (f: Self)
        ensures
            f@ == 0,
    {
        Flags { bits: 0 }
    }

    /// The value with exactly the given bits.
    pub fn from_bits(bits: u32) -> (f: Self)
        ensures
            f@ == bits,
    {
        Flags { bits }
    }

    /// The raw register value.
    pub fn bits(&self) -> (b: u32)
        ensures
            b == self@,
    {
        self.bits
    }

    /// Whether every bit of `other` is set in `self`.
    pub fn contains(&self, other: Self) -> (r: bool)
        ensures
            r == (self@ & other@ == other@),
    {
        self.bits & other.bits == other.bits
    }

    /// The bits of either.
    pub fn union(self, other: Self) -> (f: Self)
        ensures
            f@ == self@ | other@,
    {
        Flags { bits: self.bits | other.bits }
    }
}

impl Flags<CTRL> {
    pub fn fd() -> (f: Self)
        ensures
            f@ == CTRL_FD,
    {
        Flags { bits: CTRL_FD }
    }

    pub fn slu() -> (f: Self)
        ensures
            f@ == CTRL_SLU,
    {
        Flags { bits: CTRL_SLU }
    }

    pub fn spd_1000() -> (f: Self)
        ensures
            f@ == CTRL_SPD_1000,
    {
        Flags { bits: CTRL_SPD_1000 }
    }

    pub fn frcspd() -> (f: Self)
        ensures
            f@ == CTRL_FRCSPD,
    {
        Flags { bits: CTRL_FRCSPD }
    }

    pub fn frcdpx() -> (f: Self)
        ensures
            f@ == CTRL_FRCDPX,
    {
        Flags { bits: CTRL_FRCDPX }
    }

    pub fn rst() -> (f: Self)
        ensures
            f@ == CTRL_RST,
    {
        Flags { bits: CTRL_RST }
    }
}

impl Flags<CTRL_EXT> {
    pub fn drv_load() -> (f: Self)
        ensures
            f@ == CTRL_EXT_DRV_LOAD,
    {
        Flags { bits: CTRL_EXT_DRV_LOAD }
    }
}

impl Flags<STATUS> {
    pub fn fd() -> (f: Self)
        ensures
            f@ == STATUS_FD,
    {
        Flags { bits: STATUS_FD }
    }

    pub fn lu() -> (f: Self)
        ensures
            f@ == STATUS_LU,
    {
        Flags { bits: STATUS_LU }
    }

    pub fn phyra() -> (f: Self)
        ensures
            f@ == STATUS_PHYRA,
    {
        Flags { bits: STATUS_PHYRA }
    }
}

impl Flags<RCTL> {
    pub fn rxen() -> (f: Self)
        ensures
            f@ == RCTL_RXEN,
    {
        Flags { bits: RCTL_RXEN }
    }
}

impl Flags<TCTL> {
    pub fn en() -> (f: Self)
        ensures
            f@ == TCTL_EN,
    {
        Flags { bits: TCTL_EN }
    }
}

impl Flags<SRRCTL0> {
    pub fn desctype() -> (f: Self)
        ensures
            f@ == SRRCTL_DESCTYPE,
    {
        Flags { bits: SRRCTL_DESCTYPE }
    }
}

impl Flags<RXDCTL0> {
    pub fn wthresh() -> (f: Self)
        ensures
            f@ == RXDCTL_WTHRESH,
    {
        Flags { bits: RXDCTL_WTHRESH }
    }

    pub fn en() -> (f: Self)
        ensures
            f@ == RXDCTL_EN,
    {
        Flags { bits: RXDCTL_EN }
    }
}

impl Flags<TXDCTL0> {
    pub fn wthresh() -> (f: Self)
        ensures
            f@ == TXDCTL_WTHRESH,
    {
        Flags { bits: TXDCTL_WTHRESH }
    }

    pub fn en() -> (f: Self)
        ensures
            f@ == TXDCTL_EN,
    {
        Flags { bits: TXDCTL_EN }
    }
}

impl Flags<MDIC> {
    pub fn ready() -> (f: Self)
        ensures
            f@ == MDIC_READY,
    {
        Flags { bits: MDIC_READY }
    }
}

/// The station address held in the first receive-address entry: the four bytes of
/// the low register, then the low two bytes of the high register.
pub open spec fn station_address(ral: u32, rah: u32) -> Seq<u8> {
    seq![
        ral as u8,
        (ral >> 8) as u8,
        (ral >> 16) as u8,
        (ral >> 24) as u8,
        rah as u8,
        (rah >> 8) as u8,
    ]
}

/// The station address, from the values read from RAL0 and RAH0.
pub fn read_mac(ral: u32, rah: u32) -> (mac: [u8; 6])
    ensures
        mac@ == station_address(ral, rah),
{
    let mac = [
        #[verifier::truncate]
        (ral as u8),
        #[verifier::truncate]
        ((ral >> 8) as u8),
        #[verifier::truncate]
        ((ral >> 16) as u8),
        #[verifier::truncate]
        ((ral >> 24) as u8),
        #[verifier::truncate]
        (rah as u8),
        #[verifier::truncate]
        ((rah >> 8) as u8),
    ];
    assert(mac@ =~= station_address(ral, rah));
    mac
}

} // verus!
