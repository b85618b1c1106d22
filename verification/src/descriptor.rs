//! Hardware descriptor layouts.
//!
//! A descriptor slot is sixteen bytes that the device reads and writes directly.
//! The same bytes are interpreted in two ways: in *read* form the driver has filled
//! them in for the device, in *write-back* form the device has reported an outcome.
//! Nothing in the bytes tells the two apart, so a slot is kept as a plain byte block
//! and each form is a typed view of it. All multi-byte fields are little-endian.

use vstd::prelude::*;

verus! {

/// Bytes in one descriptor slot.
pub const DESC_BYTES: usize = 16;

/// The 16-bit little-endian value at `at`.
pub open spec fn le_u16(b: Seq<u8>, at: int) -> u16 {
    (b[at] as u16) | (b[at + 1] as u16) << 8
}

/// The 32-bit little-endian value at `at`.
pub open spec fn le_u32(b: Seq<u8>, at: int) -> u32 {
    (le_u16(b, at) as u32) | (le_u16(b, at + 2) as u32) << 16
}

/// The 64-bit little-endian value at `at`.
pub open spec fn le_u64(b: Seq<u8>, at: int) -> u64 {
    (le_u32(b, at) as u64) | (le_u32(b, at + 4) as u64) << 32
}

/// The two bytes of `v`, least significant first.
pub open spec fn u16_le(v: u16) -> Seq<u8> {
    seq![v as u8, (v >> 8) as u8]
}

/// The four bytes of `v`, least significant first.
pub open spec fn u32_le(v: u32) -> Seq<u8> {
    u16_le(v as u16) + u16_le((v >> 16) as u16)
}

/// The eight bytes of `v`, least significant first.
pub open spec fn u64_le(v: u64) -> Seq<u8> {
    u32_le(v as u32) + u32_le((v >> 32) as u32)
}

/// Reading back two bytes written by `u16_le` gives the value written.
pub proof fn lemma_u16_le(v: u16)
    ensures
        u16_le(v).len() == 2,
        le_u16(u16_le(v), 0) == v,
{
    assert((v as u8) as u16 | (((v >> 8) as u8) as u16) << 8 == v) by (bit_vector);
}

/// Reading back four bytes written by `u32_le` gives the value written.
pub proof fn lemma_u32_le(v: u32)
    ensures
        u32_le(v).len() == 4,
        le_u32(u32_le(v), 0) == v,
{
    let b = u32_le(v);
    lemma_u16_le(v as u16);
    lemma_u16_le((v >> 16) as u16);
    assert(le_u16(b, 0) == v as u16);
    assert(le_u16(b, 2) == (v >> 16) as u16);
    assert(((v as u16) as u32) | (((v >> 16) as u16) as u32) << 16 == v) by (bit_vector);
}

/// Reading back eight bytes written by `u64_le` gives the value written.
pub proof fn lemma_u64_le(v: u64)
    ensures
        u64_le(v).len() == 8,
        le_u64(u64_le(v), 0) == v,
{
    let b = u64_le(v);
    lemma_u32_le(v as u32);
    lemma_u32_le((v >> 32) as u32);
    assert(le_u32(b, 0) == le_u32(u32_le(v as u32), 0));
    assert(le_u32(b, 4) == le_u32(u32_le((v >> 32) as u32), 0));
    assert(((v as u32) as u64) | (((v >> 32) as u32) as u64) << 32 == v) by (bit_vector);
}

/// Two bytes are exactly the little-endian bytes of the value they spell.
pub proof fn lemma_le_u16_bytes(b: Seq<u8>, at: int)
    requires
        0 <= at,
        at + 2 <= b.len(),
    ensures
        u16_le(le_u16(b, at)) == b.subrange(at, at + 2),
{
    let lo = b[at];
    let hi = b[at + 1];
    assert(((lo as u16) | (hi as u16) << 8) as u8 == lo) by (bit_vector);
    assert((((lo as u16) | (hi as u16) << 8) >> 8) as u8 == hi) by (bit_vector);
    assert(u16_le(le_u16(b, at)) =~= b.subrange(at, at + 2));
}

/// Four bytes are exactly the little-endian bytes of the value they spell.
pub proof fn lemma_le_u32_bytes(b: Seq<u8>, at: int)
    requires
        0 <= at,
        at + 4 <= b.len(),
    ensures
        u32_le(le_u32(b, at)) == b.subrange(at, at + 4),
{
    let lo = le_u16(b, at);
    let hi = le_u16(b, at + 2);
    lemma_le_u16_bytes(b, at);
    lemma_le_u16_bytes(b, at + 2);
    assert(((lo as u32) | (hi as u32) << 16) as u16 == lo) by (bit_vector);
    assert((((lo as u32) | (hi as u32) << 16) >> 16) as u16 == hi) by (bit_vector);
    assert(u32_le(le_u32(b, at)) =~= b.subrange(at, at + 4));
}

/// Eight bytes are exactly the little-endian bytes of the value they spell.
pub proof fn lemma_le_u64_bytes(b: Seq<u8>, at: int)
    requires
        0 <= at,
        at + 8 <= b.len(),
    ensures
        u64_le(le_u64(b, at)) == b.subrange(at, at + 8),
{
    let lo = le_u32(b, at);
    let hi = le_u32(b, at + 4);
    lemma_le_u32_bytes(b, at);
    lemma_le_u32_bytes(b, at + 4);
    assert(((lo as u64) | (hi as u64) << 32) as u32 == lo) by (bit_vector);
    assert((((lo as u64) | (hi as u64) << 32) >> 32) as u32 == hi) by (bit_vector);
    assert(u64_le(le_u64(b, at)) =~= b.subrange(at, at + 8));
}

fn load_u16(b: &[u8; 16], at: usize) -> (v: u16)
    requires
        at + 2 <= 16,
    ensures
        v == le_u16(b@, at as int),
{
    (b[at] as u16) | (b[at + 1] as u16) << 8
}

fn load_u32(b: &[u8; 16], at: usize) -> (v: u32)
    requires
        at + 4 <= 16,
    ensures
        v == le_u32(b@, at as int),
{
    (load_u16(b, at) as u32) | (load_u16(b, at + 2) as u32) << 16
}

fn load_u64(b: &[u8; 16], at: usize) -> (v: u64)
    requires
        at + 8 <= 16,
    ensures
        v == le_u64(b@, at as int),
{
    (load_u32(b, at) as u64) | (load_u32(b, at + 4) as u64) << 32
}

fn store_u16(b: &mut [u8; 16], at: usize, v: u16)
    requires
        at + 2 <= 16,
    ensures
        final(b)@ == old(b)@.subrange(0, at as int) + u16_le(v) + old(b)@.subrange(
            at + 2,
            16,
        ),
{
    b[at] = #[verifier::truncate]
    (v as u8);
    b[at + 1] = #[verifier::truncate]
    ((v >> 8) as u8);
    assert(b@ =~= old(b)@.subrange(0, at as int) + u16_le(v) + old(b)@.subrange(at + 2, 16));
}

fn store_u32(b: &mut [u8; 16], at: usize, v: u32)
    requires
        at + 4 <= 16,
    ensures
        final(b)@ == old(b)@.subrange(0, at as int) + u32_le(v) + old(b)@.subrange(
            at + 4,
            16,
        ),
{
    store_u16(b, at, #[verifier::truncate] (v as u16));
    store_u16(b, at + 2, #[verifier::truncate] ((v >> 16) as u16));
    assert(b@ =~= old(b)@.subrange(0, at as int) + u32_le(v) + old(b)@.subrange(at + 4, 16));
}

fn store_u64(b: &mut [u8; 16], at: usize, v: u64)
    requires
        at + 8 <= 16,
    ensures
        final(b)@ == old(b)@.subrange(0, at as int) + u64_le(v) + old(b)@.subrange(
            at + 8,
            16,
        ),
{
    store_u32(b, at, #[verifier::truncate] (v as u32));
    store_u32(b, at + 4, #[verifier::truncate] ((v >> 32) as u32));
    assert(b@ =~= old(b)@.subrange(0, at as int) + u64_le(v) + old(b)@.subrange(at + 8, 16));
}

/// Transmit descriptor as the driver fills it in for the device.
#[derive(Debug, Clone, Copy, PartialEq, Eq, Structural)]
pub struct AdvTxDescRead {
    /// Bus address of the packet buffer.
    pub buffer_addr: u64,
    pub paylen: u16,
    pub ports_idx: u8,
    pub idx_sta: u8,
    /// Descriptor command.
    pub dcmd: u16,
    /// Number of bytes to send from the buffer.
    pub dtalen: u16,
}

/// Transmit descriptor as the device reports it after sending.
#[derive(Debug, Clone, Copy, PartialEq, Eq, Structural)]
pub struct AdvTxDescWB {
    pub rsvd: u64,
    pub nxtseq_seed: u32,
    pub status: u32,
}

/// Receive descriptor as the driver posts it to the device.
#[derive(Debug, Clone, Copy, PartialEq, Eq, Structural)]
pub struct AdvRxDescRead {
    /// Bus address of the packet buffer.
    pub pkt_addr: u64,
    /// Bus address of the header buffer; zero while header splitting is off.
    pub hdr_addr: u64,
}

/// Receive descriptor as the device reports it after storing a packet.
#[derive(Debug, Clone, Copy, PartialEq, Eq, Structural)]
pub struct AdvRxDescWB {
    pub rsshash: u32,
    pub head_packet_info: u32,
    pub vlan: u16,
    /// Number of bytes the device stored in the packet buffer.
    pub pkt_len: u16,
    pub err__status: u32,
}

/// Packet-type and header-length halves of the first write-back dword.
#[derive(Debug, Clone, Copy, PartialEq, Eq, Structural)]
pub struct HsRss {
    pub pkt_info: u16,
    pub hdr_info: u16,
}

/// IP identification and checksum halves of the second write-back dword.
#[derive(Debug, Clone, Copy, PartialEq, Eq, Structural)]
pub struct CsumIp {
    pub ip_id: u16,
    pub csum: u16,
}

/// The first dword of an extended receive write-back: one 32-bit value, or its
/// two halves as packet and header information.
#[derive(Debug, Clone, Copy, PartialEq, Eq, Structural)]
pub struct LoDword {
    pub data: u32,
}

/// The second dword of an extended receive write-back: the RSS hash, or its two
/// halves as IP identification and checksum.
#[derive(Debug, Clone, Copy, PartialEq, Eq, Structural)]
pub struct HiDword {
    pub rss: u32,
}

/// The low and high halves of a dword, in that order.
pub open spec fn halves(v: u32) -> (u16, u16) {
    (v as u16, (v >> 16) as u16)
}

/// The dword with the given low and high halves.
pub open spec fn join(lo: u16, hi: u16) -> u32 {
    (lo as u32) | (hi as u32) << 16
}

/// Splitting a dword and joining its halves gives the dword, and the other way
/// round.
pub proof fn lemma_halves_join(v: u32, lo: u16, hi: u16)
    ensures
        join(halves(v).0, halves(v).1) == v,
        halves(join(lo, hi)) == (lo, hi),
{
    assert(((v as u16) as u32) | (((v >> 16) as u16) as u32) << 16 == v) by (bit_vector);
    assert(((lo as u32) | (hi as u32) << 16) as u16 == lo) by (bit_vector);
    assert((((lo as u32) | (hi as u32) << 16) >> 16) as u16 == hi) by (bit_vector);
}

impl LoDword {
    /// The dword seen as packet information (low half) and header information.
    pub fn hs_rss(&self) -> (h: HsRss)
        ensures
            (h.pkt_info, h.hdr_info) == halves(self.data),
    {
        HsRss {
            pkt_info: #[verifier::truncate]
            (self.data as u16),
            hdr_info: #[verifier::truncate]
            ((self.data >> 16) as u16),
        }
    }

    /// The dword with the given packet and header information.
    pub fn from_hs_rss(h: HsRss) -> (d: Self)
        ensures
            d.data == join(h.pkt_info, h.hdr_info),
    {
        LoDword { data: (h.pkt_info as u32) | (h.hdr_info as u32) << 16 }
    }
}

impl HiDword {
    /// The dword seen as IP identification (low half) and checksum.
    pub fn csum_ip(&self) -> (c: CsumIp)
        ensures
            (c.ip_id, c.csum) == halves(self.rss),
    {
        CsumIp {
            ip_id: #[verifier::truncate]
            (self.rss as u16),
            csum: #[verifier::truncate]
            ((self.rss >> 16) as u16),
        }
    }

    /// The dword with the given IP identification and checksum.
    pub fn from_csum_ip(c: CsumIp) -> (d: Self)
        ensures
            d.rss == join(c.ip_id, c.csum),
    {
        HiDword { rss: (c.ip_id as u32) | (c.csum as u32) << 16 }
    }
}

/// The read form spelled by sixteen slot bytes of a transmit descriptor.
pub open spec fn tx_read_of(b: Seq<u8>) -> AdvTxDescRead {
    AdvTxDescRead {
        buffer_addr: le_u64(b, 0),
        paylen: le_u16(b, 8),
        ports_idx: b[10],
        idx_sta: b[11],
        dcmd: le_u16(b, 12),
        dtalen: le_u16(b, 14),
    }
}

/// The sixteen slot bytes that spell a transmit read form.
pub open spec fn tx_read_bytes(r: AdvTxDescRead) -> Seq<u8> {
    u64_le(r.buffer_addr) + u16_le(r.paylen) + seq![r.ports_idx, r.idx_sta] + u16_le(r.dcmd)
        + u16_le(r.dtalen)
}

/// The write-back form spelled by sixteen slot bytes of a transmit descriptor.
pub open spec fn tx_wb_of(b: Seq<u8>) -> AdvTxDescWB {
    AdvTxDescWB { rsvd: le_u64(b, 0), nxtseq_seed: le_u32(b, 8), status: le_u32(b, 12) }
}

/// The read form spelled by sixteen slot bytes of a receive descriptor.
pub open spec fn rx_read_of(b: Seq<u8>) -> AdvRxDescRead {
    AdvRxDescRead { pkt_addr: le_u64(b, 0), hdr_addr: le_u64(b, 8) }
}

/// The sixteen slot bytes that spell a receive read form.
pub open spec fn rx_read_bytes(r: AdvRxDescRead) -> Seq<u8> {
    u64_le(r.pkt_addr) + u64_le(r.hdr_addr)
}

/// The write-back form spelled by sixteen slot bytes of a receive descriptor.
pub open spec fn rx_wb_of(b: Seq<u8>) -> AdvRxDescWB {
    AdvRxDescWB {
        rsshash: le_u32(b, 0),
        head_packet_info: le_u32(b, 4),
        vlan: le_u16(b, 8),
        pkt_len: le_u16(b, 10),
        err__status: le_u32(b, 12),
    }
}

/// The slot bytes of a fresh read-form descriptor for the buffer at `addr`:
/// the address, then zeros. Transmit and receive descriptors agree on it.
pub open spec fn fresh_slot(addr: u64) -> Seq<u8> {
    u64_le(addr) + Seq::new(8, |i: int| 0u8)
}

/// A descriptor that can be made afresh for a packet buffer and laid out in a slot.
pub trait Descriptor: Sized {
    /// The sixteen bytes of the slot.
    spec fn slot(&self) -> Seq<u8>;

    /// A read-form descriptor for the buffer at bus address `addr`, all else zero.
    fn new(addr: u64) -> (d: Self)
        ensures
            d.slot() == fresh_slot(addr),
    ;

    /// The bytes to place in the ring.
    fn to_bytes(&self) -> (b: [u8; 16])
        ensures
            b@ == self.slot(),
    ;
}

/// One slot of the transmit ring.
#[derive(Debug, Clone, Copy)]
pub struct AdvTxDesc {
    bytes: [u8; 16],
}

/// One slot of the receive ring.
#[derive(Debug, Clone, Copy)]
pub struct AdvRxDesc {
    bytes: [u8; 16],
}

impl View for AdvTxDesc {
    type V = Seq<u8>;

    closed spec fn view(&self) -> Seq<u8> {
        self.bytes@
    }
}

impl View for AdvRxDesc {
    type V = Seq<u8>;

    closed spec fn view(&self) -> Seq<u8> {
        self.bytes@
    }
}

impl AdvTxDesc {
    /// The descriptor held in the given slot bytes.
    pub fn from_bytes(bytes: [u8; 16]) -> (d: Self)
        ensures
            d@ == bytes@,
    {
        AdvTxDesc { bytes }
    }

    /// The descriptor that spells the read form `r`.
    pub fn from_read(r: AdvTxDescRead) -> (d: Self)
        ensures
            d@ == tx_read_bytes(r),
            tx_read_of(d@) == r,
    {
        let mut bytes = [0u8;16];
        store_u64(&mut bytes, 0, r.buffer_addr);
        store_u16(&mut bytes, 8, r.paylen);
        bytes[10] = r.ports_idx;
        bytes[11] = r.idx_sta;
        store_u16(&mut bytes, 12, r.dcmd);
        store_u16(&mut bytes, 14, r.dtalen);
        proof {
            assert(bytes@ =~= tx_read_bytes(r));
            lemma_tx_read_round_trip(r);
        }
        AdvTxDesc { bytes }
    }

    /// The slot seen as the driver's request to the device.
    pub fn read(&self) -> (r: AdvTxDescRead)
        ensures
            r == tx_read_of(self@),
    {
        AdvTxDescRead {
            buffer_addr: load_u64(&self.bytes, 0),
            paylen: load_u16(&self.bytes, 8),
            ports_idx: self.bytes[10],
            idx_sta: self.bytes[11],
            dcmd: load_u16(&self.bytes, 12),
            dtalen: load_u16(&self.bytes, 14),
        }
    }

    /// The slot seen as the device's report.
    pub fn write(&self) -> (w: AdvTxDescWB)
        ensures
            w == tx_wb_of(self@),
    {
        AdvTxDescWB {
            rsvd: load_u64(&self.bytes, 0),
            nxtseq_seed: load_u32(&self.bytes, 8),
            status: load_u32(&self.bytes, 12),
        }
    }
}

impl Descriptor for AdvTxDesc {
    open spec fn slot(&self) -> Seq<u8> {
        self@
    }

    fn new(addr: u64) -> (d: Self)
        ensures
            tx_read_of(d@) == (AdvTxDescRead {
                buffer_addr: addr,
                paylen: 0,
                ports_idx: 0,
                idx_sta: 0,
                dcmd: 0,
                dtalen: 0,
            }),
    {
        let r = AdvTxDescRead {
            buffer_addr: addr,
            paylen: 0,
            ports_idx: 0,
            idx_sta: 0,
            dcmd: 0,
            dtalen: 0,
        };
        let d = AdvTxDesc::from_read(r);
        proof {
            lemma_fresh_slot(addr);
        }
        d
    }

    fn to_bytes(&self) -> (b: [u8; 16]) {
        self.bytes
    }
}

impl AdvRxDesc {
    /// The descriptor held in the given slot bytes.
    pub fn from_bytes(bytes: [u8; 16]) -> (d: Self)
        ensures
            d@ == bytes@,
    {
        AdvRxDesc { bytes }
    }

    /// The descriptor that spells the read form `r`.
    pub fn from_read(r: AdvRxDescRead) -> (d: Self)
        ensures
            d@ == rx_read_bytes(r),
            rx_read_of(d@) == r,
    {
        let mut bytes = [0u8;16];
        store_u64(&mut bytes, 0, r.pkt_addr);
        store_u64(&mut bytes, 8, r.hdr_addr);
        proof {
            assert(bytes@ =~= rx_read_bytes(r));
            lemma_rx_read_round_trip(r);
        }
        AdvRxDesc { bytes }
    }

    /// The slot seen as the driver's request to the device.
    pub fn read(&self) -> (r: AdvRxDescRead)
        ensures
            r == rx_read_of(self@),
    {
        AdvRxDescRead { pkt_addr: load_u64(&self.bytes, 0), hdr_addr: load_u64(&self.bytes, 8) }
    }

    /// The slot seen as the device's report.
    pub fn write(&self) -> (w: AdvRxDescWB)
        ensures
            w == rx_wb_of(self@),
    {
        AdvRxDescWB {
            rsshash: load_u32(&self.bytes, 0),
            head_packet_info: load_u32(&self.bytes, 4),
            vlan: load_u16(&self.bytes, 8),
            pkt_len: load_u16(&self.bytes, 10),
            err__status: load_u32(&self.bytes, 12),
        }
    }
}

impl AdvRxDesc {
    /// The first dword of the device's report, for its extended reading.
    pub fn lo_dword(&self) -> (d: LoDword)
        ensures
            d.data == le_u32(self@, 0),
    {
        LoDword { data: load_u32(&self.bytes, 0) }
    }

    /// The second dword of the device's report, for its extended reading.
    pub fn hi_dword(&self) -> (d: HiDword)
        ensures
            d.rss == le_u32(self@, 4),
    {
        HiDword { rss: load_u32(&self.bytes, 4) }
    }
}

impl Descriptor for AdvRxDesc {
    open spec fn slot(&self) -> Seq<u8> {
        self@
    }

    fn new(addr: u64) -> (d: Self)
        ensures
            rx_read_of(d@) == (AdvRxDescRead { pkt_addr: addr, hdr_addr: 0 }),
    {
        let d = AdvRxDesc::from_read(AdvRxDescRead { pkt_addr: addr, hdr_addr: 0 });
        proof {
            lemma_fresh_slot(addr);
        }
        d
    }

    fn to_bytes(&self) -> (b: [u8; 16]) {
        self.bytes
    }
}

/// A transmit read form survives being laid out in a slot and read back.
pub proof fn lemma_tx_read_round_trip(r: AdvTxDescRead)
    ensures
        tx_read_bytes(r).len() == 16,
        tx_read_of(tx_read_bytes(r)) == r,
{
    let b = tx_read_bytes(r);
    lemma_u64_le(r.buffer_addr);
    lemma_u16_le(r.paylen);
    lemma_u16_le(r.dcmd);
    lemma_u16_le(r.dtalen);
    assert(b.subrange(0, 8) =~= u64_le(r.buffer_addr));
    assert(b.subrange(8, 10) =~= u16_le(r.paylen));
    assert(b.subrange(12, 14) =~= u16_le(r.dcmd));
    assert(b.subrange(14, 16) =~= u16_le(r.dtalen));
    lemma_le_at(b, 0, u64_le(r.buffer_addr));
    lemma_le_at(b, 8, u16_le(r.paylen));
    lemma_le_at(b, 12, u16_le(r.dcmd));
    lemma_le_at(b, 14, u16_le(r.dtalen));
}

/// A receive read form survives being laid out in a slot and read back.
pub proof fn lemma_rx_read_round_trip(r: AdvRxDescRead)
    ensures
        rx_read_bytes(r).len() == 16,
        rx_read_of(rx_read_bytes(r)) == r,
{
    let b = rx_read_bytes(r);
    lemma_u64_le(r.pkt_addr);
    lemma_u64_le(r.hdr_addr);
    assert(b.subrange(0, 8) =~= u64_le(r.pkt_addr));
    assert(b.subrange(8, 16) =~= u64_le(r.hdr_addr));
    lemma_le_at(b, 0, u64_le(r.pkt_addr));
    lemma_le_at(b, 8, u64_le(r.hdr_addr));
}

/// The read form of a transmit slot loses nothing: laying it out again gives
/// the slot's own bytes.
pub proof fn lemma_tx_slot_round_trip(b: Seq<u8>)
    requires
        b.len() == 16,
    ensures
        tx_read_bytes(tx_read_of(b)) == b,
{
    lemma_le_u64_bytes(b, 0);
    lemma_le_u16_bytes(b, 8);
    lemma_le_u16_bytes(b, 12);
    lemma_le_u16_bytes(b, 14);
    assert(seq![b[10], b[11]] =~= b.subrange(10, 12));
    assert(tx_read_bytes(tx_read_of(b)) =~= b);
}

/// The read form of a receive slot loses nothing: laying it out again gives
/// the slot's own bytes.
pub proof fn lemma_rx_slot_round_trip(b: Seq<u8>)
    requires
        b.len() == 16,
    ensures
        rx_read_bytes(rx_read_of(b)) == b,
{
    lemma_le_u64_bytes(b, 0);
    lemma_le_u64_bytes(b, 8);
    assert(rx_read_bytes(rx_read_of(b)) =~= b);
}

/// A fresh slot is the read form with only the buffer address set, on either ring.
pub proof fn lemma_fresh_slot(addr: u64)
    ensures
        fresh_slot(addr).len() == 16,
        fresh_slot(addr) == tx_read_bytes(
            AdvTxDescRead {
                buffer_addr: addr,
                paylen: 0,
                ports_idx: 0,
                idx_sta: 0,
                dcmd: 0,
                dtalen: 0,
            },
        ),
        fresh_slot(addr) == rx_read_bytes(AdvRxDescRead { pkt_addr: addr, hdr_addr: 0 }),
{
    lemma_u64_le(addr);
    assert(0u16 as u8 == 0u8 && (0u16 >> 8) as u8 == 0u8) by (bit_vector);
    assert(0u32 as u16 == 0u16 && (0u32 >> 16) as u16 == 0u16) by (bit_vector);
    assert(0u64 as u32 == 0u32 && (0u64 >> 32) as u32 == 0u32) by (bit_vector);
    assert(u16_le(0) =~= seq![0u8, 0u8]);
    assert(u32_le(0) =~= seq![0u8, 0u8, 0u8, 0u8]);
    assert(u64_le(0) =~= Seq::new(8, |i: int| 0u8));
    assert(fresh_slot(addr) =~= tx_read_bytes(
        AdvTxDescRead {
            buffer_addr: addr,
            paylen: 0,
            ports_idx: 0,
            idx_sta: 0,
            dcmd: 0,
            dtalen: 0,
        },
    ));
    assert(fresh_slot(addr) =~= rx_read_bytes(AdvRxDescRead { pkt_addr: addr, hdr_addr: 0 }));
}

/// A little-endian value is read from the bytes at its own offset alone.
proof fn lemma_le_at(b: Seq<u8>, at: int, part: Seq<u8>)
    requires
        0 <= at,
        at + part.len() <= b.len(),
        b.subrange(at, at + part.len()) == part,
    ensures
        part.len() == 2 ==> le_u16(b, at) == le_u16(part, 0),
        part.len() == 4 ==> le_u32(b, at) == le_u32(part, 0),
        part.len() == 8 ==> le_u64(b, at) == le_u64(part, 0),
{
    assert forall|i: int| 0 <= i < part.len() implies b[at + i] == part[i] by {
        assert(b.subrange(at, at + part.len())[i] == b[at + i]);
    }
    if part.len() == 2 {
        assert(b[at] == part[0] && b[at + 1] == part[1]);
    }
    if part.len() == 4 {
        assert(b[at] == part[0] && b[at + 1] == part[1] && b[at + 2] == part[2] && b[at + 3]
            == part[3]);
    }
    if part.len() == 8 {
        assert(b[at] == part[0] && b[at + 1] == part[1] && b[at + 2] == part[2] && b[at + 3]
            == part[3]);
        assert(b[at + 4] == part[4] && b[at + 5] == part[5] && b[at + 6] == part[6] && b[at + 7]
            == part[7]);
    }
}

} // verus!
