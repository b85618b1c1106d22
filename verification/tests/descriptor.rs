use igb::descriptor::{
    AdvRxDesc, AdvRxDescRead, AdvRxDescWB, AdvTxDesc, AdvTxDescRead, AdvTxDescWB, CsumIp,
    Descriptor, HiDword, HsRss, LoDword, DESC_BYTES,
};

#[test]
fn fresh_transmit_descriptor_holds_only_the_address() {
    let d = AdvTxDesc::new(0x1122_3344_5566_7788);
    assert_eq!(
        d.read(),
        AdvTxDescRead {
            buffer_addr: 0x1122_3344_5566_7788,
            paylen: 0,
            ports_idx: 0,
            idx_sta: 0,
            dcmd: 0,
            dtalen: 0
        }
    );
    assert_eq!(
        d.to_bytes(),
        [0x88, 0x77, 0x66, 0x55, 0x44, 0x33, 0x22, 0x11, 0, 0, 0, 0, 0, 0, 0, 0]
    );
}

#[test]
fn fresh_receive_descriptor_holds_only_the_address() {
    let d = AdvRxDesc::new(0xFFFF_FFFF_FFFF_FFFF);
    assert_eq!(d.read(), AdvRxDescRead { pkt_addr: u64::MAX, hdr_addr: 0 });
    assert_eq!(
        d.to_bytes(),
        [0xFF, 0xFF, 0xFF, 0xFF, 0xFF, 0xFF, 0xFF, 0xFF, 0, 0, 0, 0, 0, 0, 0, 0]
    );
}

#[test]
fn fresh_descriptors_of_address_zero_are_all_zero() {
    assert_eq!(AdvTxDesc::new(0).to_bytes(), [0u8; 16]);
    assert_eq!(AdvRxDesc::new(0).to_bytes(), [0u8; 16]);
}

#[test]
fn fresh_descriptors_agree_on_both_rings() {
    for addr in [0u64, 1, 0x1000, 0xDEAD_BEEF_0000_1000, u64::MAX] {
        assert_eq!(AdvTxDesc::new(addr).to_bytes(), AdvRxDesc::new(addr).to_bytes());
    }
}

#[test]
fn slot_is_sixteen_bytes() {
    assert_eq!(DESC_BYTES, 16);
    assert_eq!(AdvTxDesc::new(5).to_bytes().len(), 16);
}

#[test]
fn transmit_read_form_is_laid_out_little_endian() {
    let r = AdvTxDescRead {
        buffer_addr: 0x0102_0304_0506_0708,
        paylen: 0x1112,
        ports_idx: 0x21,
        idx_sta: 0x31,
        dcmd: 0x4142,
        dtalen: 0x5152,
    };
    let d = AdvTxDesc::from_read(r);
    assert_eq!(
        d.to_bytes(),
        [
            0x08, 0x07, 0x06, 0x05, 0x04, 0x03, 0x02, 0x01, 0x12, 0x11, 0x21, 0x31, 0x42, 0x41,
            0x52, 0x51
        ]
    );
    assert_eq!(d.read(), r);
}

#[test]
fn receive_read_form_is_laid_out_little_endian() {
    let r = AdvRxDescRead { pkt_addr: 0x0102_0304_0506_0708, hdr_addr: 0x1112_1314_1516_1718 };
    let d = AdvRxDesc::from_read(r);
    assert_eq!(
        d.to_bytes(),
        [
            0x08, 0x07, 0x06, 0x05, 0x04, 0x03, 0x02, 0x01, 0x18, 0x17, 0x16, 0x15, 0x14, 0x13,
            0x12, 0x11
        ]
    );
    assert_eq!(d.read(), r);
}

#[test]
fn transmit_write_back_is_read_from_the_same_bytes() {
    let d = AdvTxDesc::from_bytes([
        0x08, 0x07, 0x06, 0x05, 0x04, 0x03, 0x02, 0x01, 0x14, 0x13, 0x12, 0x11, 0x24, 0x23, 0x22,
        0x21,
    ]);
    assert_eq!(
        d.write(),
        AdvTxDescWB { rsvd: 0x0102_0304_0506_0708, nxtseq_seed: 0x1112_1314, status: 0x2122_2324 }
    );
    assert_eq!(d.read().buffer_addr, 0x0102_0304_0506_0708);
    assert_eq!(d.read().paylen, 0x1314);
    assert_eq!(d.read().dtalen, 0x2122);
}

#[test]
fn receive_write_back_is_read_from_the_same_bytes() {
    let d = AdvRxDesc::from_bytes([
        0x04, 0x03, 0x02, 0x01, 0x14, 0x13, 0x12, 0x11, 0x22, 0x21, 0x32, 0x31, 0x44, 0x43, 0x42,
        0x41,
    ]);
    assert_eq!(
        d.write(),
        AdvRxDescWB {
            rsshash: 0x0102_0304,
            head_packet_info: 0x1112_1314,
            vlan: 0x2122,
            pkt_len: 0x3132,
            err__status: 0x4142_4344
        }
    );
    assert_eq!(d.lo_dword(), LoDword { data: 0x0102_0304 });
    assert_eq!(d.hi_dword(), HiDword { rss: 0x1112_1314 });
}

#[test]
fn descriptor_bytes_survive_unchanged() {
    let bytes = [1u8, 2, 3, 4, 5, 6, 7, 8, 9, 10, 11, 12, 13, 14, 15, 16];
    assert_eq!(AdvTxDesc::from_bytes(bytes).to_bytes(), bytes);
    assert_eq!(AdvRxDesc::from_bytes(bytes).to_bytes(), bytes);
    assert_eq!(AdvTxDesc::from_read(AdvTxDesc::from_bytes(bytes).read()).to_bytes(), bytes);
    assert_eq!(AdvRxDesc::from_read(AdvRxDesc::from_bytes(bytes).read()).to_bytes(), bytes);
}

#[test]
fn low_dword_splits_into_packet_and_header_info() {
    let d = LoDword { data: 0xABCD_1234 };
    assert_eq!(d.hs_rss(), HsRss { pkt_info: 0x1234, hdr_info: 0xABCD });
    assert_eq!(LoDword::from_hs_rss(HsRss { pkt_info: 0x1234, hdr_info: 0xABCD }), d);
}

#[test]
fn high_dword_splits_into_ip_id_and_checksum() {
    let d = HiDword { rss: 0xFFFF_0001 };
    assert_eq!(d.csum_ip(), CsumIp { ip_id: 0x0001, csum: 0xFFFF });
    assert_eq!(HiDword::from_csum_ip(CsumIp { ip_id: 0x0001, csum: 0xFFFF }), d);
}
