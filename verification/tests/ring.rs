use igb::descriptor::{AdvRxDesc, AdvTxDesc};
use igb::err::IgbError;
use igb::ring::Ring;

#[test]
fn a_ring_whose_slots_cannot_be_allocated_is_no_memory() {
    let tx = Ring::<AdvTxDesc>::from_storage(None);
    assert!(matches!(tx, Err(IgbError::NoMemory)));
    std::mem::forget(tx);
    let rx = Ring::<AdvRxDesc>::from_storage(None);
    assert!(matches!(rx, Err(IgbError::NoMemory)));
    std::mem::forget(rx);
}
