use igb::err::IgbError;
use igb::program::{Op, Pending, Queue, Request, Sequencer, POLL_INTERVAL_MS, POLL_LIMIT};
use igb::regs::{Flags, CTRL, CTRL_EXT, RCTL};

fn wait(reg: u32, mask: u32, want: u32, tries: Option<u32>, fatal: bool) -> Op {
    Op::Await { reg, mask, want, interval_ms: 1, tries, fatal }
}

#[test]
fn poll_budget_is_a_thousand_polls_a_millisecond_apart() {
    assert_eq!(POLL_LIMIT, 1000);
    assert_eq!(POLL_INTERVAL_MS, 1);
}

#[test]
fn empty_program_is_done_at_once() {
    let mut s = Sequencer::new(Vec::new());
    assert_eq!(s.step(0), Request::Done);
    assert_eq!(s.step(7), Request::Done);
    assert_eq!(s.current().end, Some(Request::Done));
}

#[test]
fn writes_come_in_program_order() {
    let mut s = Sequencer::new(vec![
        Op::Write { reg: 0x10, value: 1 },
        Op::Write { reg: 0x20, value: 2 },
        Op::Write { reg: 0x10, value: 3 },
    ]);
    assert_eq!(s.step(0), Request::Write { reg: 0x10, value: 1 });
    assert_eq!(s.step(0), Request::Write { reg: 0x20, value: 2 });
    assert_eq!(s.step(0), Request::Write { reg: 0x10, value: 3 });
    assert_eq!(s.step(0), Request::Done);
}

#[test]
fn reply_to_a_write_is_ignored() {
    let mut s = Sequencer::new(vec![
        Op::Write { reg: 0x10, value: 1 },
        Op::Rewrite { reg: 0x20, keep: 0xFFFF_FFFF, set: 0 },
    ]);
    assert_eq!(s.step(0xAAAA), Request::Write { reg: 0x10, value: 1 });
    assert_eq!(s.step(0xBBBB), Request::Write { reg: 0x20, value: 0 });
    assert_eq!(s.current().last, 0);
}

#[test]
fn read_then_rewrite_keeps_and_sets() {
    let mut s = Sequencer::new(vec![
        Op::Read { reg: 0x18 },
        Op::Rewrite { reg: 0x18, keep: 0x0000_FF00, set: 0x1000_0001 },
    ]);
    assert_eq!(s.step(0), Request::Read { reg: 0x18 });
    assert_eq!(s.current().pending, Pending::Value);
    assert_eq!(s.step(0x1234_5678), Request::Write { reg: 0x18, value: 0x1000_5601 });
    assert_eq!(s.step(0), Request::Done);
}

#[test]
fn modify_reg_sets_bits_and_keeps_the_rest() {
    let ops = Op::modify_reg(Flags::<CTRL_EXT>::drv_load());
    let mut s = Sequencer::new(ops.to_vec());
    assert_eq!(s.step(0), Request::Read { reg: 0x0018 });
    assert_eq!(s.step(0x0040_0001), Request::Write { reg: 0x0018, value: 0x1040_0001 });
    assert_eq!(s.step(0), Request::Done);
}

#[test]
fn typed_instructions_name_register_and_bits() {
    assert_eq!(
        Op::write_reg(Flags::<CTRL>::rst()),
        Op::Write { reg: 0x0000, value: 0x0400_0000 }
    );
    assert_eq!(
        Op::until_clear(Flags::<CTRL>::rst(), false),
        Op::Await {
            reg: 0x0000,
            mask: 0x0400_0000,
            want: 0,
            interval_ms: 1,
            tries: Some(1000),
            fatal: false
        }
    );
    assert_eq!(
        Op::until_set(Flags::<RCTL>::rxen(), true),
        Op::Await { reg: 0x0100, mask: 2, want: 2, interval_ms: 1, tries: Some(1000), fatal: true }
    );
    assert_eq!(
        Op::wait_for(Flags::<RCTL>::from_bits(6), Flags::<RCTL>::rxen(), 5, None, false),
        Op::Await { reg: 0x0100, mask: 6, want: 2, interval_ms: 5, tries: None, fatal: false }
    );
}

#[test]
fn wait_succeeds_on_the_first_poll_that_shows_the_bits() {
    let mut s = Sequencer::new(vec![wait(0x28, 0x3, 0x3, Some(1000), true), Op::Read { reg: 4 }]);
    assert_eq!(s.step(0), Request::Read { reg: 0x28 });
    assert_eq!(s.current().pending, Pending::Poll);
    assert_eq!(s.step(0x1), Request::Sleep { millis: 1 });
    assert_eq!(s.step(0), Request::Read { reg: 0x28 });
    assert_eq!(s.step(0x2), Request::Sleep { millis: 1 });
    assert_eq!(s.step(0), Request::Read { reg: 0x28 });
    assert_eq!(s.step(0xFFFF_FFF3), Request::Read { reg: 4 });
    assert_eq!(s.current().polls, 0);
    assert_eq!(s.current().last, 0xFFFF_FFF3);
}

#[test]
fn wait_for_clear_bits() {
    let mut s = Sequencer::new(vec![wait(0, 0x0400_0000, 0, Some(1000), false)]);
    assert_eq!(s.step(0), Request::Read { reg: 0 });
    assert_eq!(s.step(0x0400_0000), Request::Sleep { millis: 1 });
    assert_eq!(s.step(0), Request::Read { reg: 0 });
    assert_eq!(s.step(0xFBFF_FFFF), Request::Done);
}

fn run_out(fatal: bool) -> (Request, u32, u32) {
    let mut s = Sequencer::new(vec![
        wait(0x100, 2, 2, Some(1000), fatal),
        Op::Write { reg: 0x200, value: 1 },
    ]);
    let mut reads = 0;
    let mut sleeps = 0;
    let mut req = s.step(0);
    loop {
        match req {
            Request::Read { reg } => {
                assert_eq!(reg, 0x100);
                reads += 1;
                req = s.step(0);
            }
            Request::Sleep { millis } => {
                assert_eq!(millis, 1);
                sleeps += 1;
                req = s.step(0);
            }
            _ => break,
        }
    }
    assert_eq!(s.step(2), req);
    (req, reads, sleeps)
}

#[test]
fn wait_gives_up_after_exactly_its_tries() {
    assert_eq!(run_out(false), (Request::Failed { error: IgbError::Timeout }, 1000, 1000));
}

#[test]
fn fatal_wait_gives_up_fatally() {
    assert_eq!(run_out(true), (Request::Fatal { error: IgbError::Timeout }, 1000, 1000));
}

#[test]
fn wait_with_no_tries_fails_without_a_read() {
    let mut s = Sequencer::new(vec![wait(0x100, 2, 2, Some(0), false)]);
    assert_eq!(s.step(0), Request::Failed { error: IgbError::Timeout });
}

#[test]
fn wait_without_limit_keeps_polling() {
    let mut s = Sequencer::new(vec![Op::Await {
        reg: 0x100,
        mask: 2,
        want: 2,
        interval_ms: 3,
        tries: None,
        fatal: false,
    }]);
    for _ in 0..5000 {
        assert_eq!(s.step(0), Request::Read { reg: 0x100 });
        assert_eq!(s.step(0), Request::Sleep { millis: 3 });
    }
    assert_eq!(s.current().polls, 0);
    assert_eq!(s.step(0), Request::Read { reg: 0x100 });
    assert_eq!(s.step(2), Request::Done);
}

#[test]
fn populate_is_asked_in_place() {
    let mut s = Sequencer::new(vec![
        Op::Populate { queue: Queue::Rx },
        Op::Write { reg: 1, value: 2 },
        Op::Populate { queue: Queue::Tx },
    ]);
    assert_eq!(s.step(0), Request::Populate { queue: Queue::Rx });
    assert_eq!(s.step(0), Request::Write { reg: 1, value: 2 });
    assert_eq!(s.step(0), Request::Populate { queue: Queue::Tx });
    assert_eq!(s.step(0), Request::Done);
}

#[test]
fn abort_ends_the_program_for_good() {
    let mut s = Sequencer::new(vec![
        Op::Populate { queue: Queue::Rx },
        Op::Write { reg: 1, value: 2 },
    ]);
    assert_eq!(s.step(0), Request::Populate { queue: Queue::Rx });
    assert_eq!(s.abort(IgbError::NoMemory), Request::Fatal { error: IgbError::NoMemory });
    assert_eq!(s.step(0), Request::Fatal { error: IgbError::NoMemory });
    assert_eq!(s.step(0), Request::Fatal { error: IgbError::NoMemory });
    assert_eq!(s.current().pc, 1);
}

#[test]
fn errors_differ() {
    assert_ne!(IgbError::NoMemory, IgbError::Timeout);
}
