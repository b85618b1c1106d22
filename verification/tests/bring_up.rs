use igb::err::IgbError;
use igb::igb::Igb;
use igb::phy::{Phy, MII_CR_POWER_DOWN, PHY_ADDR};
use igb::program::{Op, Queue, Request, Sequencer};
use igb::regs::{
    CTRL, CTRL_EXT, CTRL_RST, EIMC, EIMS, MDIC, MDIC_READY, RCTL, RDBAH0, RDBAL0, RDH0, RDLEN0,
    RDT0, RXDCTL0, SRRCTL0, TCTL, TDBAH0, TDBAL0, TDH0, TDLEN0, TDT0, TXDCTL0,
};
use std::collections::HashMap;

const RX_BASE: u64 = 0x0000_0001_8000_1000;
const TX_BASE: u64 = 0x0000_0002_9000_2000;

/// A register file that remembers what is written, and a host that runs a
/// sequencer against it.
struct Device {
    regs: HashMap<u32, u32>,
    reset_clears: bool,
    phy_control: u32,
    writes: Vec<(u32, u32)>,
    reads: Vec<u32>,
    slept_ms: u64,
    populated: Vec<Queue>,
}

impl Device {
    fn new(reset_clears: bool) -> Self {
        Device {
            regs: HashMap::new(),
            reset_clears,
            phy_control: 0x1940,
            writes: Vec::new(),
            reads: Vec::new(),
            slept_ms: 0,
            populated: Vec::new(),
        }
    }

    fn write(&mut self, reg: u32, value: u32) {
        self.writes.push((reg, value));
        let stored = if reg == CTRL && self.reset_clears {
            value & !CTRL_RST
        } else if reg == MDIC {
            if value & 0x0800_0000 != 0 {
                (value & 0xFFFF_0000) | self.phy_control | MDIC_READY
            } else {
                self.phy_control = value & 0xFFFF;
                value | MDIC_READY
            }
        } else {
            value
        };
        self.regs.insert(reg, stored);
    }

    fn read(&mut self, reg: u32) -> u32 {
        self.reads.push(reg);
        *self.regs.get(&reg).unwrap_or(&0)
    }

    fn run(&mut self, sequencer: &mut Sequencer) -> Request {
        let mut reply = 0;
        loop {
            match sequencer.step(reply) {
                Request::Write { reg, value } => self.write(reg, value),
                Request::Read { reg } => reply = self.read(reg),
                Request::Sleep { millis } => self.slept_ms += millis,
                Request::Populate { queue } => self.populated.push(queue),
                end => return end,
            }
        }
    }
}

fn bring_up() -> Sequencer {
    Sequencer::new(Igb::bring_up_program(&Phy::new(), RX_BASE, TX_BASE, 64))
}

#[test]
fn bring_up_completes_on_a_willing_device() {
    let mut device = Device::new(true);
    device.regs.insert(CTRL_EXT, 0x0040_0000);
    let mut sequencer = bring_up();
    assert_eq!(device.run(&mut sequencer), Request::Done);
    assert_eq!(device.regs[&RCTL] & 0x2, 0x2);
    assert_eq!(device.regs[&TCTL] & 0x2, 0x2);
    assert_eq!(device.regs[&EIMS], 0xFFFF | (1 << 31));
    assert_eq!(device.regs[&CTRL], 0x40 | 0x1 | 0x200 | 0x1000 | 0x800);
    assert_eq!(device.regs[&CTRL_EXT], 0x1040_0000);
    assert_eq!(device.populated, vec![Queue::Rx, Queue::Tx]);
    assert_eq!(device.phy_control & MII_CR_POWER_DOWN, 0);
    assert_eq!(device.phy_control, 0x1140);
    assert_eq!(device.slept_ms, 0);
}

#[test]
fn bring_up_writes_every_register_in_order() {
    let mut device = Device::new(true);
    let mut sequencer = bring_up();
    assert_eq!(device.run(&mut sequencer), Request::Done);
    let phy = PHY_ADDR << 21;
    assert_eq!(
        device.writes,
        vec![
            (EIMC, 0xFFFF_FFFF),
            (CTRL, 0x0400_0000),
            (EIMC, 0xFFFF_FFFF),
            (CTRL_EXT, 0x1000_0000),
            (MDIC, 0x0800_0000 | phy),
            (MDIC, 0x0400_0000 | phy | 0x1140),
            (RCTL, 0),
            (RDBAL0, 0x8000_1000),
            (RDBAH0, 0x0000_0001),
            (RDLEN0, 64 * 128),
            (RDH0, 0),
            (RDT0, 63),
            (SRRCTL0, 1 << 25),
            (RXDCTL0, (1 << 16) | (1 << 25)),
            (RCTL, 1 << 1),
            (TCTL, 0),
            (TDBAL0, 0x9000_2000),
            (TDBAH0, 0x0000_0002),
            (TDLEN0, 64 * 128),
            (TDH0, 0),
            (TDT0, 0),
            (TXDCTL0, (1 << 16) | (1 << 25)),
            (TCTL, 1 << 1),
            (EIMS, 0x8000_FFFF),
            (CTRL, 0x0000_1A41),
        ]
    );
    assert_eq!(
        device.reads,
        vec![CTRL, CTRL_EXT, MDIC, MDIC, RXDCTL0, RCTL, TXDCTL0, TCTL]
    );
}

#[test]
fn bring_up_fails_when_reset_never_clears() {
    let mut device = Device::new(false);
    let mut sequencer = bring_up();
    assert_eq!(device.run(&mut sequencer), Request::Failed { error: IgbError::Timeout });
    assert_eq!(device.reads.len(), 1000);
    assert!(device.reads.iter().all(|reg| *reg == CTRL));
    assert_eq!(device.slept_ms, 1000);
    assert_eq!(device.writes, vec![(EIMC, 0xFFFF_FFFF), (CTRL, 0x0400_0000)]);
    assert!(device.populated.is_empty());
    assert_eq!(sequencer.step(0), Request::Failed { error: IgbError::Timeout });
}

#[test]
fn bring_up_is_fatal_when_a_queue_never_enables() {
    let mut device = Device::new(true);
    let mut sequencer = bring_up();
    let mut reply = 0;
    let end = loop {
        match sequencer.step(reply) {
            Request::Write { reg, value } => {
                if reg == RXDCTL0 {
                    device.write(reg, value & !(1 << 25));
                } else {
                    device.write(reg, value);
                }
            }
            Request::Read { reg } => reply = device.read(reg),
            Request::Sleep { millis } => device.slept_ms += millis,
            Request::Populate { queue } => device.populated.push(queue),
            end => break end,
        }
    };
    assert_eq!(end, Request::Fatal { error: IgbError::Timeout });
    assert_eq!(device.slept_ms, 1000);
    assert_eq!(device.populated, vec![Queue::Rx]);
    assert!(device.writes.iter().all(|(reg, _)| *reg != TCTL && *reg != EIMS));
}

#[test]
fn bring_up_has_thirty_five_instructions() {
    let program = Igb::bring_up_program(&Phy::new(), RX_BASE, TX_BASE, 64);
    assert_eq!(program.len(), 35);
    assert_eq!(program[0], Igb::disable_interrupts());
    assert_eq!(program[0], Op::Write { reg: EIMC, value: 0xFFFF_FFFF });
    assert_eq!(program[11], Op::Populate { queue: Queue::Rx });
    assert_eq!(program[23], Op::Populate { queue: Queue::Tx });
    assert_eq!(program[33], Igb::enable_interrupts());
    assert_eq!(program[33], Op::Write { reg: EIMS, value: 0x8000_FFFF });
    assert_eq!(program[34], Op::Write { reg: CTRL, value: 0x1A41 });
}

#[test]
fn transmit_length_is_that_of_the_receive_ring() {
    let mut rx = Vec::new();
    Igb::init_rx(&mut rx, 0x1000, 32);
    let mut tx = Vec::new();
    Igb::init_tx(&mut tx, 0x2000, 32);
    assert_eq!(rx.len(), 12);
    assert_eq!(tx.len(), 11);
    assert_eq!(rx[4], Op::Write { reg: RDLEN0, value: 32 * 128 });
    assert_eq!(tx[4], Op::Write { reg: TDLEN0, value: 32 * 128 });
    assert_eq!(rx[6], Op::Write { reg: RDT0, value: 63 });
    assert_eq!(tx[6], Op::Write { reg: TDT0, value: 0 });
}

#[test]
fn statistics_are_left_alone() {
    let mut program = vec![Op::Write { reg: 1, value: 2 }];
    Igb::init_stat(&mut program);
    assert_eq!(program, vec![Op::Write { reg: 1, value: 2 }]);
}

#[test]
fn phy_power_up_clears_power_down_only() {
    let mut program = Vec::new();
    Igb::setup_phy_and_the_link(&Phy::new(), &mut program);
    assert_eq!(program.len(), 4);
    let mut device = Device::new(true);
    device.phy_control = 0xFFFF;
    let mut sequencer = Sequencer::new(program);
    assert_eq!(device.run(&mut sequencer), Request::Done);
    assert_eq!(device.phy_control, 0xF7FF);
}

#[test]
fn phy_that_never_answers_times_out() {
    let mut program = Vec::new();
    Phy::new().power_up(&mut program);
    let mut sequencer = Sequencer::new(program);
    let mut reads = 0;
    let mut reply = 0;
    let end = loop {
        match sequencer.step(reply) {
            Request::Read { reg } => {
                assert_eq!(reg, MDIC);
                reads += 1;
                reply = 0;
            }
            Request::Write { .. } | Request::Sleep { .. } => {}
            end => break end,
        }
    };
    assert_eq!(end, Request::Failed { error: IgbError::Timeout });
    assert_eq!(reads, 1000);
}
