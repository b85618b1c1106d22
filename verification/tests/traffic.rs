use igb::descriptor::{AdvRxDesc, AdvRxDescRead, AdvTxDesc, AdvTxDescRead, Descriptor};
use igb::igb::{Igb, Receive, Transmit, TX_COMMAND};
use igb::ring::{DEFAULT_RING_SIZE, PACKET_BUFFER_SIZE, RING_ALIGN};
use std::collections::HashMap;

#[test]
fn ring_constants() {
    assert_eq!(DEFAULT_RING_SIZE, 64);
    assert_eq!(RING_ALIGN, 4096);
    assert_eq!(PACKET_BUFFER_SIZE, 1024);
    assert_eq!(TX_COMMAND, 0b0011 << 4);
}

#[test]
fn send_writes_length_and_command_and_advances_the_tail() {
    let slot = AdvTxDesc::new(0x7000).to_bytes();
    let t = Transmit::plan(slot, 5, 60);
    assert_eq!(t.index, 5);
    assert_eq!(t.buffer_addr, 0x7000);
    assert_eq!(t.tail, 6);
    assert_eq!(t.accepted, 60);
    assert_eq!(
        t.descriptor.read(),
        AdvTxDescRead {
            buffer_addr: 0x7000,
            paylen: 0,
            ports_idx: 0,
            idx_sta: 0,
            dcmd: 0x30,
            dtalen: 60
        }
    );
    assert_eq!(
        t.descriptor.to_bytes(),
        [0x00, 0x70, 0, 0, 0, 0, 0, 0, 0, 0, 0, 0, 0x30, 0x00, 60, 0]
    );
}

#[test]
fn send_tail_wraps_at_the_ring_size() {
    let slot = AdvTxDesc::new(0x7000).to_bytes();
    assert_eq!(Transmit::plan(slot, 0, 1).tail, 1);
    assert_eq!(Transmit::plan(slot, 62, 1).tail, 63);
    assert_eq!(Transmit::plan(slot, 63, 1).tail, 0);
    assert_eq!(Transmit::plan(slot, u32::MAX, 1).tail, 0);
    for tail in 0..64u32 {
        assert_eq!(Transmit::plan(slot, tail, 1).tail, (tail + 1) % 64);
    }
}

#[test]
fn send_reuses_the_buffer_of_an_earlier_send() {
    let first = Transmit::plan(AdvTxDesc::new(0xABCD_0000).to_bytes(), 3, 100);
    let again = Transmit::plan(first.descriptor.to_bytes(), 3, 200);
    assert_eq!(again.buffer_addr, 0xABCD_0000);
    assert_eq!(again.descriptor.read().dtalen, 200);
}

#[test]
fn send_of_an_empty_or_huge_packet() {
    let slot = AdvTxDesc::new(0x10).to_bytes();
    let empty = Transmit::plan(slot, 0, 0);
    assert_eq!(empty.accepted, 0);
    assert_eq!(empty.descriptor.read().dtalen, 0);
    let full = Transmit::plan(slot, 0, 0xFFFF);
    assert_eq!(full.descriptor.read().dtalen, 0xFFFF);
    assert_eq!(full.accepted, 0xFFFF);
    let over = Transmit::plan(slot, 0, 0x1_0005);
    assert_eq!(over.descriptor.read().dtalen, 5);
    assert_eq!(over.accepted, 0x1_0005);
}

#[test]
fn receive_takes_length_from_the_write_back_and_recycles_the_buffer() {
    let mut slot = [0u8; 16];
    slot[10] = 0x2A;
    slot[11] = 0x01;
    let r = Receive::plan(slot, 0x9000, 0);
    assert_eq!(r.index, 0);
    assert_eq!(r.len, 0x012A);
    assert_eq!(r.buffer_addr, 0x9000);
    assert_eq!(r.tail, 1);
    assert_eq!(r.descriptor.read(), AdvRxDescRead { pkt_addr: 0x9000, hdr_addr: 0 });
    assert_eq!(r.descriptor.to_bytes(), AdvRxDesc::new(0x9000).to_bytes());
}

#[test]
fn receive_slot_is_the_tail_divided_by_the_ring_size() {
    let slot = [0u8; 16];
    assert_eq!(Receive::plan(slot, 0, 0).index, 0);
    assert_eq!(Receive::plan(slot, 0, 1).index, 0);
    assert_eq!(Receive::plan(slot, 0, 63).index, 0);
    assert_eq!(Receive::plan(slot, 0, 64).index, 1);
    assert_eq!(Receive::plan(slot, 0, 65).index, 1);
    assert_eq!(Receive::plan(slot, 0, 64 * 63).index, 63);
    assert_eq!(Receive::plan(slot, 0, u32::MAX).index, 0x03FF_FFFF);
}

#[test]
fn receive_advances_the_tail_by_one_around_the_ring() {
    let slot = [0u8; 16];
    assert_eq!(Receive::plan(slot, 0, 0).tail, 1);
    assert_eq!(Receive::plan(slot, 0, 1).tail, 2);
    assert_eq!(Receive::plan(slot, 0, 62).tail, 63);
    assert_eq!(Receive::plan(slot, 0, 63).tail, 0);
    assert_eq!(Receive::plan(slot, 0, 64).tail, 1);
    assert_eq!(Receive::plan(slot, 0, 64 * 63).tail, 1);
    assert_eq!(Receive::plan(slot, 0, u32::MAX).tail, 0);
    for tail in 0..64u32 {
        assert_eq!(Receive::plan(slot, 0, tail).tail, (tail + 1) % 64);
    }
}

#[test]
fn deliver_wraps_the_one_packet() {
    assert_eq!(Igb::deliver(vec![1, 2, 3]), Some(vec![vec![1, 2, 3]]));
    assert_eq!(Igb::deliver(Vec::new()), Some(vec![Vec::new()]));
}

/// A device that sends every packet it is given straight back: what was put
/// on the transmit ring appears in the receive ring with its length.
#[test]
fn a_packet_sent_is_received_unchanged_through_a_loopback() {
    let packet: Vec<u8> = (0x00..=0x0F).collect();
    let mut memory: HashMap<u64, Vec<u8>> = HashMap::new();
    let tx_slot = AdvTxDesc::new(0x4000).to_bytes();
    let rx_buffer = 0x8000u64;

    let t = Transmit::plan(tx_slot, 0, packet.len());
    memory.insert(t.buffer_addr, packet.clone());
    assert_eq!(t.accepted, 16);
    assert_eq!(t.tail, 1);

    let sent = t.descriptor.read();
    let frame = memory[&sent.buffer_addr][..sent.dtalen as usize].to_vec();
    memory.insert(rx_buffer, frame);
    let mut rx_slot = [0u8; 16];
    rx_slot[10] = sent.dtalen as u8;
    rx_slot[11] = (sent.dtalen >> 8) as u8;

    let r = Receive::plan(rx_slot, rx_buffer, 0);
    let received = memory[&r.buffer_addr][..r.len as usize].to_vec();
    assert_eq!(Igb::deliver(received), Some(vec![packet]));
    assert_eq!(r.descriptor.read().pkt_addr, rx_buffer);
    assert_eq!(r.tail, 1);
}
