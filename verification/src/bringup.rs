//! The bring-up program: what is written to the device, in which order, and
//! which waits may run out.

use crate::err::IgbError;
use crate::phy::power_up_ops;
use crate::program::ask;
use crate::program::lemma_polling;
use crate::program::lemma_run_cut;
use crate::program::lemma_served_populate;
use crate::program::lemma_served_run_cut;
use crate::program::lemma_served_without_populate;
use crate::program::lemma_requests_len;
use crate::program::lemma_wait_runs_out;
use crate::program::run;
use crate::program::served_requests;
use crate::program::lemma_willing_run;
use crate::program::willing;
use crate::program::polling;
use crate::program::requests;
use crate::program::satisfied;
use crate::program::start;
use crate::program::step;
use crate::program::Op;
use crate::program::Queue;
use crate::program::Request;
use crate::program::POLL_INTERVAL_MS;
use crate::program::POLL_LIMIT;
use crate::regs::ALL_INTERRUPTS;
use crate::regs::CTRL;
use crate::regs::CTRL_EXT;
use crate::regs::CTRL_EXT_DRV_LOAD;
use crate::regs::CTRL_FD;
use crate::regs::CTRL_FRCDPX;
use crate::regs::CTRL_FRCSPD;
use crate::regs::CTRL_RST;
use crate::regs::CTRL_SLU;
use crate::regs::CTRL_SPD_1000;
use crate::regs::EIMC;
use crate::regs::EIMS;
use crate::regs::EIMS_OTHER;
use crate::regs::EIMS_RXTXQ;
use crate::regs::MDIC_READY;
use crate::regs::RCTL;
use crate::regs::RCTL_RXEN;
use crate::regs::RDBAH0;
use crate::regs::RDBAL0;
use crate::regs::RDH0;
use crate::regs::RDLEN0;
use crate::regs::RDT0;
use crate::regs::RXDCTL0;
use crate::regs::RXDCTL_EN;
use crate::regs::RXDCTL_WTHRESH;
use crate::regs::SRRCTL0;
use crate::regs::SRRCTL_DESCTYPE;
use crate::regs::TCTL;
use crate::regs::TCTL_EN;
use crate::regs::TDBAH0;
use crate::regs::TDBAL0;
use crate::regs::TDH0;
use crate::regs::TDLEN0;
use crate::regs::TDT0;
use crate::regs::TXDCTL0;
use crate::regs::TXDCTL_EN;
use crate::regs::TXDCTL_WTHRESH;
use crate::ring::DEFAULT_RING_SIZE;
use vstd::prelude::*;

verus! {

/// A wait, at the driver's usual pace, for the bits of `mask` at `reg` to read as
/// `want`.
pub open spec fn poll(reg: u32, mask: u32, want: u32, fatal: bool) -> Op {
    Op::Await {
        reg,
        mask,
        want,
        interval_ms: POLL_INTERVAL_MS,
        tries: Some(POLL_LIMIT),
        fatal,
    }
}

/// Silencing every interrupt of the device.
pub open spec fn disable_interrupts_op() -> Op {
    Op::Write { reg: EIMC, value: ALL_INTERRUPTS }
}

/// The request that silences every interrupt of the device.
pub open spec fn disable_interrupts_request() -> Request {
    Request::Write { reg: EIMC, value: ALL_INTERRUPTS }
}

/// Arming the sixteen queue causes and the "other" cause.
pub open spec fn enable_interrupts_op() -> Op {
    Op::Write { reg: EIMS, value: EIMS_RXTXQ | EIMS_OTHER }
}

/// The link configuration that the driver forces: link up, full duplex,
/// 1000 Mb/s, with speed and duplex forced rather than negotiated.
pub open spec fn forced_link() -> u32 {
    CTRL_SLU | CTRL_FD | CTRL_SPD_1000 | CTRL_FRCDPX | CTRL_FRCSPD
}

/// The ring length that the driver programs for a ring of `len` slots.
pub open spec fn ring_length(len: usize) -> u32 {
    (len * 128) as u32
}

/// Bringing up the receive path for a ring of `len` slots at bus address `base`:
/// receiver off; a buffer for every slot; ring base, length, head and tail, the
/// tail on the last slot; descriptor type; queue on, and wait for it; receiver
/// on, and wait for it. A wait that runs out is fatal.
pub open spec fn init_rx_ops(base: u64, len: usize) -> Seq<Op> {
    seq![
        Op::Write { reg: RCTL, value: 0 },
        Op::Populate { queue: Queue::Rx },
        Op::Write { reg: RDBAL0, value: base as u32 },
        Op::Write { reg: RDBAH0, value: (base >> 32) as u32 },
        Op::Write { reg: RDLEN0, value: ring_length(len) },
        Op::Write { reg: RDH0, value: 0 },
        Op::Write { reg: RDT0, value: (DEFAULT_RING_SIZE - 1) as u32 },
        Op::Write { reg: SRRCTL0, value: SRRCTL_DESCTYPE },
        Op::Write { reg: RXDCTL0, value: RXDCTL_WTHRESH | RXDCTL_EN },
        poll(RXDCTL0, RXDCTL_WTHRESH | RXDCTL_EN, RXDCTL_WTHRESH | RXDCTL_EN, true),
        Op::Write { reg: RCTL, value: RCTL_RXEN },
        poll(RCTL, RCTL_RXEN, RCTL_RXEN, true),
    ]
}

/// Bringing up the transmit path for a ring at bus address `base`: transmitter
/// off; a buffer for every slot; ring base, length, head and tail, both at the
/// first slot; queue on, and wait for it; transmitter on, and wait for it. The
/// length programmed is that of the receive ring, of `rx_len` slots. A wait that
/// runs out is fatal.
pub open spec fn init_tx_ops(base: u64, rx_len: usize) -> Seq<Op> {
    seq![
        Op::Write { reg: TCTL, value: 0 },
        Op::Populate { queue: Queue::Tx },
        Op::Write { reg: TDBAL0, value: base as u32 },
        Op::Write { reg: TDBAH0, value: (base >> 32) as u32 },
        Op::Write { reg: TDLEN0, value: ring_length(rx_len) },
        Op::Write { reg: TDH0, value: 0 },
        Op::Write { reg: TDT0, value: 0 },
        Op::Write { reg: TXDCTL0, value: TXDCTL_WTHRESH | TXDCTL_EN },
        poll(TXDCTL0, TXDCTL_WTHRESH | TXDCTL_EN, TXDCTL_WTHRESH | TXDCTL_EN, true),
        Op::Write { reg: TCTL, value: TCTL_EN },
        poll(TCTL, TCTL_EN, TCTL_EN, true),
    ]
}

/// Resetting the device and announcing the driver: interrupts off; reset, and
/// wait for the reset bit to clear, which the caller may survive running out;
/// interrupts off again, as the reset may have armed them; driver-loaded set,
/// the other bits of CTRL_EXT kept.
pub open spec fn reset_ops() -> Seq<Op> {
    seq![
        disable_interrupts_op(),
        Op::Write { reg: CTRL, value: CTRL_RST },
        poll(CTRL, CTRL_RST, 0, false),
        disable_interrupts_op(),
        Op::Read { reg: CTRL_EXT },
        Op::Rewrite { reg: CTRL_EXT, keep: 0xFFFF_FFFF, set: CTRL_EXT_DRV_LOAD },
    ]
}

/// The whole bring-up, in order: reset, PHY power-up, receive path, transmit
/// path, interrupts on, link forced.
pub open spec fn bring_up_ops(phy: u32, rx_base: u64, tx_base: u64, rx_len: usize) -> Seq<Op> {
    reset_ops() + power_up_ops(phy) + init_rx_ops(rx_base, rx_len) + init_tx_ops(tx_base, rx_len)
        + seq![enable_interrupts_op(), Op::Write { reg: CTRL, value: forced_link() }]
}

/// Where every `Populate` of `program` stands before a `Write`, so that the
/// step after a ring is populated asks for a register write.
pub open spec fn populate_then_write(program: Seq<Op>) -> bool {
    forall|i: int|
        0 <= i < program.len() && (#[trigger] program[i]) is Populate ==> i + 1 < program.len()
            && program[i + 1] is Write
}

/// Every `Populate` of the bring-up stands before a `Write`.
pub proof fn lemma_bring_up_layout(phy: u32, rx_base: u64, tx_base: u64, rx_len: usize)
    ensures
        bring_up_ops(phy, rx_base, tx_base, rx_len).len() == 35,
        populate_then_write(bring_up_ops(phy, rx_base, tx_base, rx_len)),
{
    let head = reset_ops() + power_up_ops(phy);
    let rx = init_rx_ops(rx_base, rx_len);
    let tx = init_tx_ops(tx_base, rx_len);
    let tail = seq![enable_interrupts_op(), Op::Write { reg: CTRL, value: forced_link() }];
    let p = bring_up_ops(phy, rx_base, tx_base, rx_len);
    assert(head.len() == 10 && rx.len() == 12 && tx.len() == 11 && tail.len() == 2);
    assert forall|i: int| 0 <= i < p.len() && (#[trigger] p[i]) is Populate implies i + 1
        < p.len() && p[i + 1] is Write by {
        if i < 10 {
            assert(p[i] == head[i]);
        } else if i < 22 {
            assert(p[i] == rx[i - 10]);
            assert(p[i + 1] == rx[i + 1 - 10]);
        } else if i < 33 {
            assert(p[i] == tx[i - 22]);
            assert(p[i + 1] == tx[i + 1 - 22]);
        } else {
            assert(p[i] == tail[i - 33]);
        }
    }
}

/// A device whose reset bit never reads clear fails the bring-up with a
/// timeout after exactly a thousand polls, and nothing else is asked of it:
/// the requests are the two writes that silence the interrupts and reset the
/// device, a thousand reads of CTRL each followed by a sleep of a millisecond,
/// and the failure. (The values read are the replies to the steps after the
/// reads: of `replies`, the thousand at places 3, 5, 7 and on.)
pub proof fn lemma_reset_runs_out(
    phy: u32,
    rx_base: u64,
    tx_base: u64,
    rx_len: usize,
    replies: Seq<u32>,
)
    requires
        replies.len() == 2 + 2 * POLL_LIMIT + 1,
        forall|j: int|
            0 <= j < POLL_LIMIT ==> !satisfied(#[trigger] replies[2 + 2 * j + 1], CTRL_RST, 0),
    ensures
        requests(bring_up_ops(phy, rx_base, tx_base, rx_len), start(), replies) == seq![
            disable_interrupts_request(),
            Request::Write { reg: CTRL, value: CTRL_RST },
        ] + polling(CTRL, POLL_INTERVAL_MS, POLL_LIMIT as nat) + seq![
            Request::Failed { error: IgbError::Timeout },
        ],
{
    let p = bring_up_ops(phy, rx_base, tx_base, rx_len);
    lemma_bring_up_layout(phy, rx_base, tx_base, rx_len);
    assert(p[0] == reset_ops()[0] && p[1] == reset_ops()[1] && p[2] == reset_ops()[2]);
    let (s1, r1) = step(p, start(), replies[0]);
    let rest1 = replies.drop_first();
    let (s2, r2) = step(p, s1, rest1[0]);
    let rest2 = rest1.drop_first();
    assert forall|j: int| 0 <= j < POLL_LIMIT implies !satisfied(
        #[trigger] rest2[2 * j + 1],
        CTRL_RST,
        0,
    ) by {
        assert(rest2[2 * j + 1] == replies[2 + 2 * j + 1]);
    }
    lemma_wait_runs_out(
        p,
        s2,
        rest2,
        POLL_LIMIT as nat,
        CTRL,
        CTRL_RST,
        0,
        POLL_INTERVAL_MS,
        false,
    );
    assert(requests(p, s1, rest1) == seq![r2] + requests(p, s2, rest2));
    assert(requests(p, start(), replies) =~= seq![
        disable_interrupts_request(),
        Request::Write { reg: CTRL, value: CTRL_RST },
    ] + polling(CTRL, POLL_INTERVAL_MS, POLL_LIMIT as nat) + seq![
        Request::Failed { error: IgbError::Timeout },
    ]);
}

/// Whether `replies` are those of a device that, during the bring-up, shows
/// every awaited bit at the first poll: the reset bit clear, the PHY interface
/// ready after the read and after the write, each queue enabled and each path
/// on. A reply stands one place after the request it answers.
pub open spec fn answers_at_once(replies: Seq<u32>) -> bool {
    &&& replies.len() == 36
    &&& satisfied(replies[3], CTRL_RST, 0)
    &&& satisfied(replies[8], MDIC_READY, MDIC_READY)
    &&& satisfied(replies[10], MDIC_READY, MDIC_READY)
    &&& satisfied(replies[20], RXDCTL_WTHRESH | RXDCTL_EN, RXDCTL_WTHRESH | RXDCTL_EN)
    &&& satisfied(replies[22], RCTL_RXEN, RCTL_RXEN)
    &&& satisfied(replies[31], TXDCTL_WTHRESH | TXDCTL_EN, TXDCTL_WTHRESH | TXDCTL_EN)
    &&& satisfied(replies[33], TCTL_EN, TCTL_EN)
}

/// On a device that shows every awaited bit at the first poll, the bring-up
/// completes: each of its thirty-five instructions is asked once, in order and
/// without a sleep, and the program ends done. The receiver and the transmitter
/// are switched on, and the last two writes arm the interrupts and force the link.
pub proof fn lemma_bring_up_completes(
    phy: u32,
    rx_base: u64,
    tx_base: u64,
    rx_len: usize,
    replies: Seq<u32>,
)
    requires
        answers_at_once(replies),
    ensures
        ({
            let program = bring_up_ops(phy, rx_base, tx_base, rx_len);
            let asked = requests(program, start(), replies);
            &&& asked == Seq::new(35, |i: int| ask(program, i, replies)) + seq![Request::Done]
            &&& asked[20] == (Request::Write { reg: RCTL, value: RCTL_RXEN })
            &&& asked[31] == (Request::Write { reg: TCTL, value: TCTL_EN })
            &&& asked[33] == (Request::Write { reg: EIMS, value: EIMS_RXTXQ | EIMS_OTHER })
            &&& asked[34] == (Request::Write { reg: CTRL, value: forced_link() })
            &&& asked[35] == Request::Done
        }),
{
    let reset = reset_ops();
    let power = power_up_ops(phy);
    let rx = init_rx_ops(rx_base, rx_len);
    let tx = init_tx_ops(tx_base, rx_len);
    let tail = seq![enable_interrupts_op(), Op::Write { reg: CTRL, value: forced_link() }];
    let p = bring_up_ops(phy, rx_base, tx_base, rx_len);
    assert(reset.len() == 6 && power.len() == 4 && rx.len() == 12 && tx.len() == 11 && tail.len()
        == 2);
    assert forall|i: int| 0 <= i < 35 implies #[trigger] p[i] == (if i < 6 {
        reset[i]
    } else if i < 10 {
        power[i - 6]
    } else if i < 22 {
        rx[i - 10]
    } else if i < 33 {
        tx[i - 22]
    } else {
        tail[i - 33]
    }) by {}
    assert(willing(p, replies)) by {
        assert forall|i: int| 0 <= i < p.len() implies (#[trigger] p[i] matches Op::Await {
            mask,
            want,
            tries,
            ..
        } ==> tries != Some(0u32) && satisfied(replies[i + 1], mask, want)) by {}
        assert forall|i: int| 0 <= i < p.len() && (#[trigger] p[i]) is Rewrite implies i > 0 && (
        p[i - 1] is Read || p[i - 1] is Await) by {
            if i > 0 {
                assert(p[i - 1] == p[i - 1]);
            }
        }
    }
    lemma_willing_run(p, replies);
    let asked = Seq::new(35, |i: int| ask(p, i, replies)) + seq![Request::Done];
    assert(asked[20] == ask(p, 20, replies) && asked[31] == ask(p, 31, replies) && asked[33]
        == ask(p, 33, replies) && asked[34] == ask(p, 34, replies));
}

/// The same holds of the bring-up as the driver itself runs it, populating the
/// rings within its steps: a device whose reset bit never reads clear is asked
/// for the two writes, a thousand polls of CTRL and nothing more, and the
/// bring-up fails with a timeout. No ring is populated on the way, whatever
/// would have been granted.
pub proof fn lemma_open_reset_runs_out(
    phy: u32,
    rx_base: u64,
    tx_base: u64,
    rx_len: usize,
    replies: Seq<u32>,
    grants: Seq<bool>,
)
    requires
        replies.len() == 2 + 2 * POLL_LIMIT + 1,
        forall|j: int|
            0 <= j < POLL_LIMIT ==> !satisfied(#[trigger] replies[2 + 2 * j + 1], CTRL_RST, 0),
    ensures
        served_requests(bring_up_ops(phy, rx_base, tx_base, rx_len), start(), replies, grants)
            == seq![disable_interrupts_request(), Request::Write { reg: CTRL, value: CTRL_RST }]
            + polling(CTRL, POLL_INTERVAL_MS, POLL_LIMIT as nat) + seq![
            Request::Failed { error: IgbError::Timeout },
        ],
{
    let p = bring_up_ops(phy, rx_base, tx_base, rx_len);
    lemma_reset_runs_out(phy, rx_base, tx_base, rx_len, replies);
    lemma_polling(CTRL, POLL_INTERVAL_MS, POLL_LIMIT as nat);
    let polls = polling(CTRL, POLL_INTERVAL_MS, POLL_LIMIT as nat);
    let asked = requests(p, start(), replies);
    assert forall|i: int| 0 <= i < replies.len() implies !(#[trigger] asked[i] is Populate) by {
        if 2 <= i < 2 + 2 * POLL_LIMIT {
            assert(asked[i] == polls[i - 2]);
        }
    }
    lemma_served_without_populate(p, start(), replies, grants);
}

/// Whether `replies` are those that the driver itself gets, during the
/// bring-up, from a device that shows every awaited bit at the first poll. The
/// driver populates the rings within its steps, so there are two replies fewer
/// than instructions and one.
pub open spec fn answers_open_at_once(replies: Seq<u32>) -> bool {
    &&& replies.len() == 34
    &&& satisfied(replies[3], CTRL_RST, 0)
    &&& satisfied(replies[8], MDIC_READY, MDIC_READY)
    &&& satisfied(replies[10], MDIC_READY, MDIC_READY)
    &&& satisfied(replies[19], RXDCTL_WTHRESH | RXDCTL_EN, RXDCTL_WTHRESH | RXDCTL_EN)
    &&& satisfied(replies[21], RCTL_RXEN, RCTL_RXEN)
    &&& satisfied(replies[29], TXDCTL_WTHRESH | TXDCTL_EN, TXDCTL_WTHRESH | TXDCTL_EN)
    &&& satisfied(replies[31], TCTL_EN, TCTL_EN)
}

/// The replies as the sequencer takes them where the driver populates the
/// rings: after each step that asks for a ring, a zero.
pub open spec fn with_populate_replies(replies: Seq<u32>) -> Seq<u32> {
    replies.subrange(0, 12) + seq![0u32] + replies.subrange(12, 23) + seq![0u32]
        + replies.subrange(23, 34)
}

/// The bring-up as the driver itself runs it, populating the rings within its
/// steps, completes on a device that shows every awaited bit at the first poll,
/// if both rings get their buffers. What is asked of the host is what the
/// sequencer asks on the same replies, less the two requests for a ring:
/// thirty-three reads and writes in the program's order, without a sleep, then
/// `Done`. The write after each ring is populated is that of the ring's base;
/// the receiver and the transmitter are switched on, and the last two writes
/// arm the interrupts and force the link.
pub proof fn lemma_open_completes(
    phy: u32,
    rx_base: u64,
    tx_base: u64,
    rx_len: usize,
    replies: Seq<u32>,
    grants: Seq<bool>,
)
    requires
        answers_open_at_once(replies),
        grants.len() == 34,
        grants[11],
        grants[22],
    ensures
        ({
            let program = bring_up_ops(phy, rx_base, tx_base, rx_len);
            let asked = served_requests(program, start(), replies, grants);
            let all = requests(program, start(), with_populate_replies(replies));
            &&& asked == all.subrange(0, 11) + all.subrange(12, 23) + all.subrange(24, 36)
            &&& asked[11] == (Request::Write { reg: RDBAL0, value: rx_base as u32 })
            &&& asked[19] == (Request::Write { reg: RCTL, value: RCTL_RXEN })
            &&& asked[22] == (Request::Write { reg: TDBAL0, value: tx_base as u32 })
            &&& asked[29] == (Request::Write { reg: TCTL, value: TCTL_EN })
            &&& asked[31] == (Request::Write { reg: EIMS, value: EIMS_RXTXQ | EIMS_OTHER })
            &&& asked[32] == (Request::Write { reg: CTRL, value: forced_link() })
            &&& asked[33] == Request::Done
        }),
{
    let p = bring_up_ops(phy, rx_base, tx_base, rx_len);
    let e = with_populate_replies(replies);
    let rx = init_rx_ops(rx_base, rx_len);
    let tx = init_tx_ops(tx_base, rx_len);
    lemma_bring_up_layout(phy, rx_base, tx_base, rx_len);
    lemma_bring_up_completes(phy, rx_base, tx_base, rx_len, e);
    let all = requests(p, start(), e);
    assert(all.len() == 36);
    assert forall|i: int| 0 <= i < 35 implies #[trigger] all[i] == ask(p, i, e) by {}
    assert forall|i: int| 0 <= i < 35 && i != 11 && i != 23 implies !(#[trigger] p[i]
        is Populate) by {
        let head = reset_ops() + power_up_ops(phy);
        let tail = seq![enable_interrupts_op(), Op::Write { reg: CTRL, value: forced_link() }];
        if i < 10 {
            assert(p[i] == head[i]);
        } else if i < 22 {
            assert(p[i] == rx[i - 10]);
        } else if i < 33 {
            assert(p[i] == tx[i - 22]);
        } else {
            assert(p[i] == tail[i - 33]);
        }
    }
    assert(p[11] == rx[1] && p[12] == rx[2] && p[23] == tx[1] && p[24] == tx[2]);
    // The sequencer's run, cut where the rings are populated.
    let e1 = replies.subrange(0, 11);
    let e2 = seq![replies[11], 0u32];
    let e3 = replies.subrange(12, 22);
    let e4 = seq![replies[22], 0u32];
    let e5 = replies.subrange(23, 34);
    assert(e =~= e1 + (e2 + (e3 + (e4 + e5))));
    let s1 = run(p, start(), e1);
    let s2 = run(p, s1, e2);
    let s3 = run(p, s2, e3);
    let s4 = run(p, s3, e4);
    lemma_run_cut(p, start(), e1, e2 + (e3 + (e4 + e5)));
    lemma_run_cut(p, s1, e2, e3 + (e4 + e5));
    lemma_run_cut(p, s2, e3, e4 + e5);
    lemma_run_cut(p, s3, e4, e5);
    let a1 = requests(p, start(), e1);
    let a2 = requests(p, s1, e2);
    let a3 = requests(p, s2, e3);
    let a4 = requests(p, s3, e4);
    let a5 = requests(p, s4, e5);
    lemma_requests_len(p, start(), e1);
    lemma_requests_len(p, s1, e2);
    lemma_requests_len(p, s2, e3);
    lemma_requests_len(p, s3, e4);
    lemma_requests_len(p, s4, e5);
    assert(all == a1 + (a2 + (a3 + (a4 + a5))));
    assert(a1 =~= all.subrange(0, 11));
    assert(a2 =~= all.subrange(11, 13));
    assert(a3 =~= all.subrange(13, 23));
    assert(a4 =~= all.subrange(23, 25));
    assert(a5 =~= all.subrange(25, 36));
    // The driver's run, cut at the same places.
    let g1 = grants.subrange(0, 11);
    let g2 = seq![true];
    let g3 = grants.subrange(12, 22);
    let g4 = seq![true];
    let g5 = grants.subrange(23, 34);
    let r2 = seq![replies[11]];
    let r4 = seq![replies[22]];
    assert(replies =~= e1 + (r2 + (e3 + (r4 + e5))));
    assert(grants =~= g1 + (g2 + (g3 + (g4 + g5))));
    lemma_served_run_cut(p, start(), e1, r2 + (e3 + (r4 + e5)), g1, g2 + (g3 + (g4 + g5)));
    assert forall|i: int| 0 <= i < e1.len() implies !(#[trigger] a1[i] is Populate) by {
        assert(a1[i] == all[i]);
    }
    lemma_served_without_populate(p, start(), e1, g1);
    lemma_served_run_cut(p, s1, r2, e3 + (r4 + e5), g2, g3 + (g4 + g5));
    assert(step(p, s1, replies[11]).1 == a2[0]);
    assert(a2[0] == all[11]);
    lemma_served_populate(p, s1, replies[11]);
    lemma_served_run_cut(p, s2, e3, r4 + e5, g3, g4 + g5);
    assert forall|i: int| 0 <= i < e3.len() implies !(#[trigger] a3[i] is Populate) by {
        assert(a3[i] == all[13 + i]);
    }
    lemma_served_without_populate(p, s2, e3, g3);
    lemma_served_run_cut(p, s3, r4, e5, g4, g5);
    assert(step(p, s3, replies[22]).1 == a4[0]);
    assert(a4[0] == all[23]);
    lemma_served_populate(p, s3, replies[22]);
    assert forall|i: int| 0 <= i < e5.len() implies !(#[trigger] a5[i] is Populate) by {
        assert(a5[i] == all[25 + i]);
    }
    lemma_served_without_populate(p, s4, e5, g5);
    let asked = served_requests(p, start(), replies, grants);
    assert(asked == a1 + (a2.subrange(1, 2) + (a3 + (a4.subrange(1, 2) + a5))));
    assert(asked =~= all.subrange(0, 11) + all.subrange(12, 23) + all.subrange(24, 36));
    assert(asked[11] == all[12] && asked[19] == all[20] && asked[22] == all[24] && asked[29]
        == all[31] && asked[31] == all[33] && asked[32] == all[34] && asked[33] == all[35]);
}

} // verus!
