//! The driver core: bring-up, link status, transmit and receive.
//!
//! The core owns the two descriptor rings and decides everything, but it never
//! touches a register or a packet buffer. Its host reads and writes the registers
//! it names, copies packet bytes to and from the bus addresses it gives, and
//! passes back what it read.

use crate::descriptor::fresh_slot;
use crate::descriptor::rx_wb_of;
use crate::descriptor::tx_read_bytes;
use crate::descriptor::tx_read_of;
use crate::descriptor::AdvRxDesc;
use crate::descriptor::AdvTxDesc;
use crate::descriptor::AdvTxDescRead;
use crate::descriptor::Descriptor;
use crate::dma::zeroed_slots;
use crate::err::IgbError;
use crate::bringup::bring_up_ops;
use crate::bringup::disable_interrupts_op;
use crate::bringup::enable_interrupts_op;
use crate::bringup::init_rx_ops;
use crate::bringup::init_tx_ops;
use crate::bringup::lemma_bring_up_layout;
use crate::bringup::reset_ops;
use crate::phy::power_up_ops;
use crate::phy::Phy;
use crate::phy::PHY_ADDR;
use crate::program::lemma_populate_request;
use crate::program::out_of_memory;
use crate::program::reachable;
use crate::program::served_step;
use crate::program::start;
use crate::program::step;
use crate::program::Op;
use crate::program::Queue;
use crate::program::Request;
use crate::program::Sequencer;
use crate::program::State;
use crate::regs::read_mac;
use crate::regs::station_address;
use crate::regs::Flags;
use crate::regs::ALL_INTERRUPTS;
use crate::regs::CTRL;
use crate::regs::CTRL_EXT;
use crate::regs::EIMC;
use crate::regs::EIMS;
use crate::regs::EIMS_OTHER;
use crate::regs::EIMS_RXTXQ;
use crate::regs::RCTL;
use crate::regs::RDBAH0;
use crate::regs::RDBAL0;
use crate::regs::RDH0;
use crate::regs::RDLEN0;
use crate::regs::RDT0;
use crate::regs::RXDCTL0;
use crate::regs::SRRCTL0;
use crate::regs::STATUS;
use crate::regs::TCTL;
use crate::regs::TDBAH0;
use crate::regs::TDBAL0;
use crate::regs::TDH0;
use crate::regs::TDLEN0;
use crate::regs::TDT0;
use crate::regs::TXDCTL0;
use crate::ring::Ring;
use crate::ring::DEFAULT_RING_SIZE;
use vstd::prelude::*;

verus! {

/// Negotiated link speed.
#[derive(Debug, Clone, Copy, PartialEq, Eq, PartialOrd, Ord, Structural)]
pub enum Speed {
    Mb10,
    Mb100,
    Mb1000,
}

/// The link as the STATUS register shows it.
#[derive(Debug, Clone, Copy, PartialEq, Eq, Structural)]
pub struct IgbStatus {
    pub full_duplex: bool,
    pub link_up: bool,
    pub speed: Speed,
    pub phy_reset_asserted: bool,
}

/// The bits of STATUS that the link status is read from: full duplex, link up,
/// the two speed bits and PHY reset asserted.
pub const STATUS_LINK_BITS: u32 = 0x0000_04C3;

/// Transmit command of every descriptor the driver sends: end of packet and
/// report status, `0b0011 << 4`.
pub const TX_COMMAND: u16 = 0x0030;

/// Whether bit `n` of `raw` is set.
pub open spec fn bit(raw: u32, n: u32) -> bool {
    (raw >> n) & 1 == 1
}

/// The speed that bits 7:6 of STATUS encode.
pub open spec fn decode_speed(raw: u32) -> Speed {
    let field = (raw >> 6) & 3;
    if field == 0 {
        Speed::Mb10
    } else if field == 1 {
        Speed::Mb100
    } else {
        Speed::Mb1000
    }
}

/// The link status that a value of STATUS encodes.
pub open spec fn decode_status(raw: u32) -> IgbStatus {
    IgbStatus {
        full_duplex: bit(raw, 0),
        link_up: bit(raw, 1),
        speed: decode_speed(raw),
        phy_reset_asserted: bit(raw, 10),
    }
}

/// The read form of the descriptor that sends `len` bytes from the buffer at
/// `buffer_addr`. The length field has sixteen bits and holds `len` cut to them.
pub open spec fn tx_request(buffer_addr: u64, len: usize) -> AdvTxDescRead {
    AdvTxDescRead {
        buffer_addr,
        paylen: 0,
        ports_idx: 0,
        idx_sta: 0,
        dcmd: TX_COMMAND,
        dtalen: len as u16,
    }
}

/// The tail register's value `tail` advanced by one, around a ring of the
/// default size.
pub open spec fn tail_after(tail: int) -> int {
    (tail + 1) % (DEFAULT_RING_SIZE as int)
}

/// What sending one packet asks of the host, and what it puts in the ring.
#[derive(Debug, Clone, Copy)]
pub struct Transmit {
    /// The slot used.
    pub index: usize,
    /// Bus address of the buffer to copy the packet into.
    pub buffer_addr: u64,
    /// The descriptor for the slot.
    pub descriptor: AdvTxDesc,
    /// The value to write to TDT0 once the packet is in the buffer.
    pub tail: u32,
    /// The packet's length, as a signed count.
    pub accepted: i32,
}

/// What receiving one packet asks of the host, and what it puts in the ring.
#[derive(Debug, Clone, Copy)]
pub struct Receive {
    /// The slot consumed.
    pub index: usize,
    /// Bus address of the buffer that holds the packet.
    pub buffer_addr: u64,
    /// Number of bytes to copy out of the buffer: the length the device reported.
    pub len: u16,
    /// The descriptor that recycles the slot.
    pub descriptor: AdvRxDesc,
    /// The value to write to RDT0 once the packet is copied out.
    pub tail: u32,
}

impl Transmit {
    /// The transmission of `len` bytes through the slot that the tail register
    /// names, `slot` being the bytes now in it. The buffer is the one the slot
    /// refers to; the new descriptor sends `len` bytes from it; the tail moves
    /// one slot on, around the ring.
    pub fn plan(slot: [u8; 16], tail: u32, len: usize) -> (t: Self)
        ensures
            t.index == tail,
            t.buffer_addr == tx_read_of(slot@).buffer_addr,
            t.descriptor@ == tx_read_bytes(tx_request(t.buffer_addr, len)),
            tx_read_of(t.descriptor@) == tx_request(t.buffer_addr, len),
            t.tail == tail_after(tail as int),
            t.accepted == len as i32,
    {
        let buffer_addr: u64 = AdvTxDesc::from_bytes(slot).read().buffer_addr;
        let descriptor = AdvTxDesc::from_read(
            AdvTxDescRead {
                buffer_addr,
                paylen: 0,
                ports_idx: 0,
                idx_sta: 0,
                dcmd: TX_COMMAND,
                dtalen: #[verifier::truncate]
                (len as u16),
            },
        );
        Transmit {
            index: tail as usize,
            buffer_addr,
            descriptor,
            tail: ((tail as u64 + 1) % (DEFAULT_RING_SIZE as u64)) as u32,
            accepted: #[verifier::truncate]
            (len as i32),
        }
    }
}

impl Receive {
    /// The reception through the slot that the tail register names, `slot` being
    /// the bytes now in it and `buffer_addr` the slot's entry in the ring's table.
    /// The slot is the tail divided by the ring size; the packet has the length
    /// that the device wrote back; the slot is recycled with a fresh descriptor
    /// for the same buffer; the tail moves one on, around the ring.
    pub fn plan(slot: [u8; 16], buffer_addr: u64, tail: u32) -> (r: Self)
        ensures
            r.index == tail as int / (DEFAULT_RING_SIZE as int),
            r.buffer_addr == buffer_addr,
            r.len == rx_wb_of(slot@).pkt_len,
            r.descriptor@ == fresh_slot(buffer_addr),
            r.tail == tail_after(tail as int),
    {
        let index: usize = tail as usize / DEFAULT_RING_SIZE;
        let len: u16 = AdvRxDesc::from_bytes(slot).write().pkt_len;
        Receive {
            index,
            buffer_addr,
            len,
            descriptor: AdvRxDesc::new(buffer_addr),
            tail: ((tail as u64 + 1) % (DEFAULT_RING_SIZE as u64)) as u32,
        }
    }
}

/// The link status is read from five bits of STATUS and from no other: two
/// values that agree on them give the same status, and reading one value twice
/// gives one status.
pub proof fn lemma_status_reads_link_bits(a: u32, b: u32)
    requires
        a & STATUS_LINK_BITS == b & STATUS_LINK_BITS,
    ensures
        decode_status(a) == decode_status(b),
{
    assert(a & 0x4C3 == b & 0x4C3 ==> ((a >> 0) & 1 == 1) == ((b >> 0) & 1 == 1))
        by (bit_vector);
    assert(a & 0x4C3 == b & 0x4C3 ==> ((a >> 1) & 1 == 1) == ((b >> 1) & 1 == 1))
        by (bit_vector);
    assert(a & 0x4C3 == b & 0x4C3 ==> ((a >> 10) & 1 == 1) == ((b >> 10) & 1 == 1))
        by (bit_vector);
    assert(a & 0x4C3 == b & 0x4C3 ==> (a >> 6) & 3 == (b >> 6) & 3) by (bit_vector);
}

/// Each flag of the status is one bit of STATUS, and the speed is its bits 7:6,
/// whatever the other bits are: setting or clearing any other bit changes neither.
pub proof fn lemma_status_bits(raw: u32)
    ensures
        decode_status(raw).full_duplex <==> raw & 0x1 != 0,
        decode_status(raw).link_up <==> raw & 0x2 != 0,
        decode_status(raw).phy_reset_asserted <==> raw & 0x400 != 0,
        raw & 0xC0 == 0x00 <==> decode_status(raw).speed == Speed::Mb10,
        raw & 0xC0 == 0x40 <==> decode_status(raw).speed == Speed::Mb100,
        raw & 0xC0 == 0x80 || raw & 0xC0 == 0xC0 <==> decode_status(raw).speed == Speed::Mb1000,
{
    assert(((raw >> 0) & 1 == 1) == (raw & 0x1 != 0)) by (bit_vector);
    assert(((raw >> 1) & 1 == 1) == (raw & 0x2 != 0)) by (bit_vector);
    assert(((raw >> 10) & 1 == 1) == (raw & 0x400 != 0)) by (bit_vector);
    assert(((raw >> 6) & 3 == 0) == (raw & 0xC0 == 0x00)) by (bit_vector);
    assert(((raw >> 6) & 3 == 1) == (raw & 0xC0 == 0x40)) by (bit_vector);
    assert(((raw >> 6) & 3 == 2) == (raw & 0xC0 == 0x80)) by (bit_vector);
    assert(((raw >> 6) & 3 == 3) == (raw & 0xC0 == 0xC0)) by (bit_vector);
    assert((raw >> 6) & 3 <= 3) by (bit_vector);
}

/// A packet of up to 65535 bytes is sent with its exact length and the
/// driver's transmit command; the tail read as `tail`, a slot of the ring, is
/// left exactly one further on, around the ring.
pub proof fn lemma_send_advances(buffer_addr: u64, tail: u32, len: usize)
    requires
        tail < DEFAULT_RING_SIZE,
        len <= 0xFFFF,
    ensures
        tx_request(buffer_addr, len).dtalen == len,
        tx_request(buffer_addr, len).dcmd == 0b0011u16 << 4,
        tx_request(buffer_addr, len).buffer_addr == buffer_addr,
        tail_after(tail as int) == (tail + 1) % 64,
        0 <= tail_after(tail as int) < DEFAULT_RING_SIZE,
        tail_after(tail as int) == if tail == 63 { 0 } else { tail + 1 },
{
    assert(len <= 0xFFFF ==> (len as u16) == len) by (bit_vector);
    assert(0x0030u16 == 0b0011u16 << 4) by (bit_vector);
}

/// Receiving leaves the tail exactly one further on than it was read, around
/// the ring: from the last slot it goes to the first.
pub proof fn lemma_receive_advances(tail: u32)
    ensures
        tail_after(tail as int) == (tail + 1) % 64,
        0 <= tail_after(tail as int) < DEFAULT_RING_SIZE,
        tail < DEFAULT_RING_SIZE ==> tail_after(tail as int) == if tail == 63 {
            0
        } else {
            tail + 1
        },
{
}

/// The driver core for one device.
pub struct Igb {
    tx_ring: Ring<AdvTxDesc>,
    rx_ring: Ring<AdvRxDesc>,
    phy: Phy,
    bring_up: Sequencer,
}

/// Whether every one of `slots` holds a fresh descriptor for the buffer that
/// `table` gives for it.
pub open spec fn all_posted(slots: Seq<Seq<u8>>, table: Seq<u64>) -> bool {
    forall|i: int| 0 <= i < slots.len() ==> #[trigger] slots[i] == fresh_slot(table[i])
}

impl Igb {
    /// What the driver has last stored in each slot of the queue's ring.
    pub closed spec fn slots(&self, queue: Queue) -> Seq<Seq<u8>> {
        match queue {
            Queue::Rx => self.rx_ring.slots(),
            Queue::Tx => self.tx_ring.slots(),
        }
    }

    /// The table of buffer addresses of the queue's ring.
    pub closed spec fn table(&self, queue: Queue) -> Seq<u64> {
        match queue {
            Queue::Rx => self.rx_ring.table(),
            Queue::Tx => self.tx_ring.table(),
        }
    }

    /// Bus addresses of the packet buffers that the queue's ring keeps
    /// allocated, in the order in which it took them.
    pub closed spec fn held(&self, queue: Queue) -> Seq<u64> {
        match queue {
            Queue::Rx => self.rx_ring.held(),
            Queue::Tx => self.tx_ring.held(),
        }
    }

    /// Bus address of the slot array of the queue's ring.
    pub closed spec fn base(&self, queue: Queue) -> u64 {
        match queue {
            Queue::Rx => self.rx_ring.base(),
            Queue::Tx => self.tx_ring.base(),
        }
    }

    /// What the driver has last stored in each slot of the transmit ring.
    pub open spec fn tx_slots(&self) -> Seq<Seq<u8>> {
        self.slots(Queue::Tx)
    }

    /// What the driver has last stored in each slot of the receive ring.
    pub open spec fn rx_slots(&self) -> Seq<Seq<u8>> {
        self.slots(Queue::Rx)
    }

    /// The transmit ring's table of buffer addresses.
    pub open spec fn tx_table(&self) -> Seq<u64> {
        self.table(Queue::Tx)
    }

    /// The receive ring's table of buffer addresses.
    pub open spec fn rx_table(&self) -> Seq<u64> {
        self.table(Queue::Rx)
    }

    /// Whether the queue's ring is in every respect as it is in `before`:
    /// slots, table, buffers kept and the place of the slot array.
    pub open spec fn ring_kept(&self, before: Self, queue: Queue) -> bool {
        &&& self.slots(queue) == before.slots(queue)
        &&& self.table(queue) == before.table(queue)
        &&& self.held(queue) == before.held(queue)
        &&& self.base(queue) == before.base(queue)
    }

    /// Whether every slot of the queue's ring holds a fresh descriptor for the
    /// buffer that the ring's table gives for it.
    pub open spec fn populated(&self, queue: Queue) -> bool {
        all_posted(self.slots(queue), self.table(queue))
    }

    /// The bring-up program.
    pub closed spec fn program(&self) -> Seq<Op> {
        self.bring_up.program()
    }

    /// How far the bring-up has come.
    pub closed spec fn progress(&self) -> State {
        self.bring_up.state()
    }

    /// What holds of every driver: both rings have the default size, and the
    /// program is the bring-up for them, in a state it can be in.
    pub closed spec fn wf(&self) -> bool {
        &&& self.bring_up.wf()
        &&& self.tx_ring.slots().len() == DEFAULT_RING_SIZE
        &&& self.rx_ring.slots().len() == DEFAULT_RING_SIZE
        &&& self.phy.addr() == PHY_ADDR
        &&& self.bring_up.program() == bring_up_ops(
            PHY_ADDR,
            self.rx_ring.base(),
            self.tx_ring.base(),
            DEFAULT_RING_SIZE,
        )
    }

    /// What a well-formed driver is: each ring has sixty-four slots and as many
    /// table entries, and the program is the bring-up for the internal PHY and
    /// for the two rings where they lie, in a state that the program can be in.
    pub proof fn lemma_wf(&self)
        requires
            self.wf(),
        ensures
            self.slots(Queue::Tx).len() == DEFAULT_RING_SIZE,
            self.slots(Queue::Rx).len() == DEFAULT_RING_SIZE,
            self.table(Queue::Tx).len() == DEFAULT_RING_SIZE,
            self.table(Queue::Rx).len() == DEFAULT_RING_SIZE,
            self.program() == bring_up_ops(
                PHY_ADDR,
                self.base(Queue::Rx),
                self.base(Queue::Tx),
                DEFAULT_RING_SIZE,
            ),
            reachable(self.program(), self.progress()),
    {
        self.tx_ring.lemma_table_len();
        self.rx_ring.lemma_table_len();
    }

    /// A driver with two rings of the default size, the transmit ring allocated
    /// first, and the bring-up not yet begun: every slot and table entry zero,
    /// no packet buffer taken. `NoMemory` when either ring cannot be allocated.
    pub fn new() -> (r: Result<Self, IgbError>)
        ensures
            r matches Ok(igb) ==> {
                &&& igb.wf()
                &&& igb.progress() == start()
                &&& forall|queue: Queue|
                    {
                        &&& #[trigger] igb.slots(queue) == zeroed_slots(DEFAULT_RING_SIZE as nat)
                        &&& igb.table(queue) == Seq::new(DEFAULT_RING_SIZE as nat, |i: int| 0u64)
                        &&& igb.held(queue) == Seq::<u64>::empty()
                    }
            },
            r matches Err(e) ==> e == IgbError::NoMemory,
    {
        let tx_ring = Ring::new(DEFAULT_RING_SIZE)?;
        let rx_ring = Ring::new(DEFAULT_RING_SIZE)?;
        Ok(Self::assemble(tx_ring, rx_ring))
    }

    /// The driver over its two rings, once they are allocated: the rings as
    /// they are given, and the bring-up for them not yet begun.
    pub fn assemble(tx_ring: Ring<AdvTxDesc>, rx_ring: Ring<AdvRxDesc>) -> (igb: Self)
        requires
            tx_ring.slots().len() == DEFAULT_RING_SIZE,
            rx_ring.slots().len() == DEFAULT_RING_SIZE,
        ensures
            igb.wf(),
            igb.progress() == start(),
            igb.slots(Queue::Tx) == tx_ring.slots(),
            igb.table(Queue::Tx) == tx_ring.table(),
            igb.held(Queue::Tx) == tx_ring.held(),
            igb.base(Queue::Tx) == tx_ring.base(),
            igb.slots(Queue::Rx) == rx_ring.slots(),
            igb.table(Queue::Rx) == rx_ring.table(),
            igb.held(Queue::Rx) == rx_ring.held(),
            igb.base(Queue::Rx) == rx_ring.base(),
    {
        let phy = Phy::new();
        let rx_base: u64 = rx_ring.bus_addr();
        let tx_base: u64 = tx_ring.bus_addr();
        let program = Self::bring_up_program(&phy, rx_base, tx_base, rx_ring.len());
        Igb { tx_ring, rx_ring, phy, bring_up: Sequencer::new(program) }
    }

    /// The bring-up program for rings at the given bus addresses.
    pub fn bring_up_program(phy: &Phy, rx_base: u64, tx_base: u64, rx_len: usize) -> (program:
        Vec<Op>)
        requires
            rx_len * 128 <= u32::MAX,
        ensures
            program@ == bring_up_ops(phy.addr(), rx_base, tx_base, rx_len),
    {
        let mut program: Vec<Op> = Vec::new();
        program.push(Self::disable_interrupts());
        program.push(Op::write_reg(Flags::<CTRL>::rst()));
        program.push(Op::until_clear(Flags::<CTRL>::rst(), false));
        program.push(Self::disable_interrupts());
        let announce = Op::modify_reg(Flags::<CTRL_EXT>::drv_load());
        program.push(announce[0]);
        program.push(announce[1]);
        assert(program@ =~= reset_ops());
        Self::setup_phy_and_the_link(phy, &mut program);
        Self::init_stat(&mut program);
        Self::init_rx(&mut program, rx_base, rx_len);
        Self::init_tx(&mut program, tx_base, rx_len);
        program.push(Self::enable_interrupts());
        let link = Flags::<CTRL>::slu().union(Flags::<CTRL>::fd()).union(
            Flags::<CTRL>::spd_1000(),
        ).union(Flags::<CTRL>::frcdpx()).union(Flags::<CTRL>::frcspd());
        program.push(Op::write_reg(link));
        assert(program@ =~= bring_up_ops(phy.addr(), rx_base, tx_base, rx_len));
        program
    }

    /// The instruction that silences every interrupt.
    pub fn disable_interrupts() -> (op: Op)
        ensures
            op == disable_interrupts_op(),
    {
        Op::Write { reg: EIMC, value: ALL_INTERRUPTS }
    }

    /// The instruction that arms the queue causes and the "other" cause.
    pub fn enable_interrupts() -> (op: Op)
        ensures
            op == enable_interrupts_op(),
    {
        let rxtxq: u32 = EIMS_RXTXQ;
        let other: u32 = EIMS_OTHER;
        Op::Write { reg: EIMS, value: rxtxq | other }
    }

    /// Appends the PHY's power-up. The link is forced at the end of the
    /// bring-up, not negotiated here.
    pub fn setup_phy_and_the_link(phy: &Phy, program: &mut Vec<Op>)
        ensures
            final(program)@ == old(program)@ + power_up_ops(phy.addr()),
    {
        phy.power_up(program);
    }

    /// Appends what the bring-up does to the device's statistics counters:
    /// nothing. They are left as the reset left them.
    pub fn init_stat(program: &mut Vec<Op>)
        ensures
            final(program)@ == old(program)@,
    {
    }

    /// Appends the bring-up of the receive path.
    pub fn init_rx(program: &mut Vec<Op>, ring_base: u64, ring_len: usize)
        requires
            ring_len * 128 <= u32::MAX,
        ensures
            final(program)@ == old(program)@ + init_rx_ops(ring_base, ring_len),
    {
        program.push(Op::write_reg(Flags::<RCTL>::empty()));
        program.push(Op::Populate { queue: Queue::Rx });
        program.push(Op::Write { reg: RDBAL0, value: #[verifier::truncate] (ring_base as u32) });
        program.push(
            Op::Write { reg: RDBAH0, value: #[verifier::truncate] ((ring_base >> 32) as u32) },
        );
        program.push(Op::Write { reg: RDLEN0, value: (ring_len as u32) * 128 });
        program.push(Op::Write { reg: RDH0, value: 0 });
        program.push(Op::Write { reg: RDT0, value: (DEFAULT_RING_SIZE - 1) as u32 });
        program.push(Op::write_reg(Flags::<SRRCTL0>::desctype()));
        let enable = Flags::<RXDCTL0>::wthresh().union(Flags::<RXDCTL0>::en());
        program.push(Op::write_reg(enable));
        program.push(Op::until_set(enable, true));
        program.push(Op::write_reg(Flags::<RCTL>::rxen()));
        program.push(Op::until_set(Flags::<RCTL>::rxen(), true));
        assert(program@ =~= old(program)@ + init_rx_ops(ring_base, ring_len));
    }

    /// Appends the bring-up of the transmit path.
    pub fn init_tx(program: &mut Vec<Op>, ring_base: u64, rx_ring_len: usize)
        requires
            rx_ring_len * 128 <= u32::MAX,
        ensures
            final(program)@ == old(program)@ + init_tx_ops(ring_base, rx_ring_len),
    {
        program.push(Op::write_reg(Flags::<TCTL>::empty()));
        program.push(Op::Populate { queue: Queue::Tx });
        program.push(Op::Write { reg: TDBAL0, value: #[verifier::truncate] (ring_base as u32) });
        program.push(
            Op::Write { reg: TDBAH0, value: #[verifier::truncate] ((ring_base >> 32) as u32) },
        );
        program.push(Op::Write { reg: TDLEN0, value: (rx_ring_len as u32) * 128 });
        program.push(Op::Write { reg: TDH0, value: 0 });
        program.push(Op::Write { reg: TDT0, value: 0 });
        let enable = Flags::<TXDCTL0>::wthresh().union(Flags::<TXDCTL0>::en());
        program.push(Op::write_reg(enable));
        program.push(Op::until_set(enable, true));
        program.push(Op::write_reg(Flags::<TCTL>::en()));
        program.push(Op::until_set(Flags::<TCTL>::en(), true));
        assert(program@ =~= old(program)@ + init_tx_ops(ring_base, rx_ring_len));
    }

    /// One step of the bring-up: takes in the host's reply to the last request
    /// and gives the next one. Where the program comes to populating a ring, the
    /// driver does so itself and goes on to the register write that follows; a
    /// ring that cannot be populated ends the bring-up in `Fatal` with
    /// `NoMemory`. The host is never asked to populate. A step that populates
    /// nothing leaves both rings as they are; one that populates a ring leaves
    /// the other ring as it is, and the ring itself where it lies.
    pub fn open(&mut self, reply: u32) -> (req: Request)
        requires
            old(self).wf(),
        ensures
            final(self).wf(),
            final(self).program() == old(self).program(),
            !(req is Populate),
            (final(self).progress(), req) == served_step(
                old(self).program(),
                old(self).progress(),
                reply,
                req != out_of_memory(),
            ),
            final(self).base(Queue::Rx) == old(self).base(Queue::Rx),
            final(self).base(Queue::Tx) == old(self).base(Queue::Tx),
            match step(old(self).program(), old(self).progress(), reply).1 {
                Request::Populate { queue } => {
                    &&& queue == Queue::Rx ==> final(self).ring_kept(*old(self), Queue::Tx)
                    &&& queue == Queue::Tx ==> final(self).ring_kept(*old(self), Queue::Rx)
                    &&& req != out_of_memory() ==> {
                        &&& final(self).populated(queue)
                        &&& final(self).held(queue) == old(self).held(queue) + final(self).table(
                            queue,
                        )
                    }
                },
                _ => final(self).ring_kept(*old(self), Queue::Rx) && final(self).ring_kept(
                    *old(self),
                    Queue::Tx,
                ),
            },
    {
        proof {
            lemma_bring_up_layout(
                PHY_ADDR,
                self.rx_ring.base(),
                self.tx_ring.base(),
                DEFAULT_RING_SIZE,
            );
            self.tx_ring.lemma_table_len();
            self.rx_ring.lemma_table_len();
        }
        let req = self.bring_up.step(reply);
        match req {
            Request::Populate { queue } => {
                proof {
                    lemma_populate_request(
                        old(self).bring_up.program(),
                        old(self).bring_up.state(),
                        reply,
                    );
                }
                let populated = match queue {
                    Queue::Rx => self.rx_ring.init(),
                    Queue::Tx => self.tx_ring.init(),
                };
                proof {
                    self.tx_ring.lemma_table_len();
                    self.rx_ring.lemma_table_len();
                    assert(self.table(queue).subrange(0, 64) =~= self.table(queue));
                    if populated is Ok {
                        assert forall|i: int| 0 <= i < self.slots(queue).len() implies #[trigger]
                            self.slots(queue)[i] == fresh_slot(self.table(queue)[i]) by {
                            match queue {
                                Queue::Rx => assert(self.rx_ring.posted(i)),
                                Queue::Tx => assert(self.tx_ring.posted(i)),
                            }
                        }
                    }
                }
                match populated {
                    Ok(()) => self.bring_up.step(0),
                    Err(error) => self.bring_up.abort(error),
                }
            },
            _ => req,
        }
    }

    /// Puts a packet of `len` bytes on the transmit ring, `tail` being the value
    /// read from TDT0. The slot is the one that `tail` names; `None` when there
    /// is no such slot, and nothing is then changed. Else the slot gets the
    /// descriptor that sends `len` bytes from the buffer it referred to, and the
    /// answer names that buffer and the tail to write: the host copies the
    /// packet into the buffer, then writes the tail. Whether the device is done
    /// with the slot is not looked at, nor whether the packet fits the buffer.
    /// Nothing but the one slot changes.
    pub fn send(&mut self, tail: u32, len: usize) -> (r: Option<Transmit>)
        requires
            old(self).wf(),
        ensures
            final(self).wf(),
            final(self).program() == old(self).program(),
            final(self).progress() == old(self).progress(),
            final(self).ring_kept(*old(self), Queue::Rx),
            final(self).table(Queue::Tx) == old(self).table(Queue::Tx),
            final(self).held(Queue::Tx) == old(self).held(Queue::Tx),
            final(self).base(Queue::Tx) == old(self).base(Queue::Tx),
            r is Some <==> tail < DEFAULT_RING_SIZE,
            r is None ==> final(self).tx_slots() == old(self).tx_slots(),
            r matches Some(t) ==> {
                &&& t.index == tail
                &&& t.tail == tail_after(tail as int)
                &&& t.accepted == #[verifier::truncate] (len as i32)
                &&& t.descriptor@ == tx_read_bytes(tx_request(t.buffer_addr, len))
                &&& final(self).tx_slots() == old(self).tx_slots().update(
                    tail as int,
                    t.descriptor@,
                )
            },
    {
        match self.tx_ring.get(tail as usize) {
            None => None,
            Some(slot) => {
                let t = Transmit::plan(slot, tail, len);
                self.tx_ring.set(t.index, &t.descriptor);
                Some(t)
            },
        }
    }

    /// Takes a packet off the receive ring, `tail` being the value read from
    /// RDT0. The slot is `tail` divided by the ring size; `None` when there is no
    /// such slot, and nothing is then changed. Else the answer names the slot's
    /// buffer and the length that the device wrote back, the slot is recycled
    /// with a fresh descriptor for the same buffer, and the tail to write is the
    /// tail read, moved one on around the ring: the host copies the packet out of
    /// the buffer, then writes the tail. Whether the device has filled the slot
    /// is not looked at. Nothing but the one slot changes.
    pub fn receive(&mut self, tail: u32) -> (r: Option<Receive>)
        requires
            old(self).wf(),
        ensures
            final(self).wf(),
            final(self).program() == old(self).program(),
            final(self).progress() == old(self).progress(),
            final(self).ring_kept(*old(self), Queue::Tx),
            final(self).table(Queue::Rx) == old(self).table(Queue::Rx),
            final(self).held(Queue::Rx) == old(self).held(Queue::Rx),
            final(self).base(Queue::Rx) == old(self).base(Queue::Rx),
            r is Some <==> tail as int / (DEFAULT_RING_SIZE as int) < DEFAULT_RING_SIZE,
            r is None ==> final(self).rx_slots() == old(self).rx_slots(),
            old(self).populated(Queue::Rx) ==> final(self).populated(Queue::Rx),
            r matches Some(rx) ==> {
                &&& rx.index == tail as int / (DEFAULT_RING_SIZE as int)
                &&& rx.buffer_addr == old(self).rx_table()[rx.index as int]
                &&& rx.tail == tail_after(tail as int)
                &&& rx.descriptor@ == fresh_slot(rx.buffer_addr)
                &&& final(self).rx_slots() == old(self).rx_slots().update(
                    rx.index as int,
                    fresh_slot(rx.buffer_addr),
                )
            },
    {
        let index: usize = tail as usize / DEFAULT_RING_SIZE;
        match self.rx_ring.get(index) {
            None => None,
            Some(slot) => {
                let rx = Receive::plan(slot, self.rx_ring.buffer_addr(index), tail);
                self.rx_ring.set(index, &rx.descriptor);
                Some(rx)
            },
        }
    }

    /// The result of one reception: the packet copied out of the buffer, as the
    /// only one of its batch.
    pub fn deliver(packet: Vec<u8>) -> (r: Option<Vec<Vec<u8>>>)
        ensures
            r matches Some(packets) && packets@ == seq![packet],
    {
        let mut recv_packets: Vec<Vec<u8>> = Vec::new();
        recv_packets.push(packet);
        assert(recv_packets@ =~= seq![packet]);
        if recv_packets.len() > 0 {
            Some(recv_packets)
        } else {
            None
        }
    }

    /// The link status in a value read from STATUS.
    pub fn status(raw: u32) -> (s: IgbStatus)
        ensures
            s == decode_status(raw),
    {
        let reg = Flags::<STATUS>::from_bits(raw);
        let speed_raw: u32 = (reg.bits() >> 6) & 0b11;
        proof {
            assert((raw & 0x1 == 0x1) == ((raw >> 0) & 1 == 1)) by (bit_vector);
            assert((raw & 0x2 == 0x2) == ((raw >> 1) & 1 == 1)) by (bit_vector);
            assert((raw & 0x400 == 0x400) == ((raw >> 10) & 1 == 1)) by (bit_vector);
        }
        IgbStatus {
            link_up: reg.contains(Flags::<STATUS>::lu()),
            speed: if speed_raw == 0 {
                Speed::Mb10
            } else if speed_raw == 1 {
                Speed::Mb100
            } else {
                Speed::Mb1000
            },
            full_duplex: reg.contains(Flags::<STATUS>::fd()),
            phy_reset_asserted: reg.contains(Flags::<STATUS>::phyra()),
        }
    }

    /// The station address in the values read from RAL0 and RAH0.
    pub fn mac(ral: u32, rah: u32) -> (mac: [u8; 6])
        ensures
            mac@ == station_address(ral, rah),
    {
        read_mac(ral, rah)
    }
}

} // verus!
