//! The PHY, reached through the device's management data interface (MDIC).

use crate::program::Op;
use crate::program::POLL_INTERVAL_MS;
use crate::program::POLL_LIMIT;
use crate::regs::MDIC;
use crate::regs::MDIC_DATA;
use crate::regs::MDIC_OP_READ;
use crate::regs::MDIC_OP_WRITE;
use crate::regs::MDIC_READY;
use vstd::prelude::*;

verus! {

/// Address of the device's internal PHY on the management interface.
pub const PHY_ADDR: u32 = 1;

/// The PHY's control register.
pub const PHY_CONTROL: u32 = 0;

/// PHY control: power down.
pub const MII_CR_POWER_DOWN: u32 = 0x0800;

/// Bit position of the PHY register number in MDIC.
pub const MDIC_REGADD_SHIFT: u32 = 16;

/// Bit position of the PHY address in MDIC.
pub const MDIC_PHYADD_SHIFT: u32 = 21;

/// The PHY at one address of the management interface.
#[derive(Debug, Clone, Copy)]
pub struct Phy {
    addr: u32,
}

/// The MDIC bits that select register `reg` of the PHY at `addr`.
pub open spec fn mdic_target(addr: u32, reg: u32) -> u32 {
    (reg << MDIC_REGADD_SHIFT) | (addr << MDIC_PHYADD_SHIFT)
}

/// The wait for an MDIC transaction to complete: `Failed` with a timeout when the
/// ready bit does not come up within the driver's usual poll budget.
pub open spec fn mdic_ready() -> Op {
    Op::Await {
        reg: MDIC,
        mask: MDIC_READY,
        want: MDIC_READY,
        interval_ms: POLL_INTERVAL_MS,
        tries: Some(POLL_LIMIT),
        fatal: false,
    }
}

/// Powering up the PHY at `addr`: read its control register through MDIC, then
/// write the sixteen bits read back with the power-down bit cleared.
pub open spec fn power_up_ops(addr: u32) -> Seq<Op> {
    seq![
        Op::Write { reg: MDIC, value: MDIC_OP_READ | mdic_target(addr, PHY_CONTROL) },
        mdic_ready(),
        Op::Rewrite {
            reg: MDIC,
            keep: MDIC_DATA & !MII_CR_POWER_DOWN,
            set: MDIC_OP_WRITE | mdic_target(addr, PHY_CONTROL),
        },
        mdic_ready(),
    ]
}

impl Phy {
    /// Address on the management interface.
    pub closed spec fn addr(&self) -> u32 {
        self.addr
    }

    /// The device's internal PHY.
    pub fn new() -> (phy: Self)
        ensures
            phy.addr() == PHY_ADDR,
    {
        Phy { addr: PHY_ADDR }
    }

    /// Appends to `program` the instructions that take the PHY out of power-down.
    pub fn power_up(&self, program: &mut Vec<Op>)
        ensures
            final(program)@ == old(program)@ + power_up_ops(self.addr()),
    {
        let target: u32 = (PHY_CONTROL << MDIC_REGADD_SHIFT) | (self.addr << MDIC_PHYADD_SHIFT);
        let ready = Op::Await {
            reg: MDIC,
            mask: MDIC_READY,
            want: MDIC_READY,
            interval_ms: POLL_INTERVAL_MS,
            tries: Some(POLL_LIMIT),
            fatal: false,
        };
        program.push(Op::Write { reg: MDIC, value: MDIC_OP_READ | target });
        program.push(ready);
        program.push(
            Op::Rewrite {
                reg: MDIC,
                keep: MDIC_DATA & !MII_CR_POWER_DOWN,
                set: MDIC_OP_WRITE | target,
            },
        );
        program.push(ready);
        assert(program@ =~= old(program)@ + power_up_ops(self.addr()));
    }
}

} // verus!
