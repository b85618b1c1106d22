//! Register programs, and the sequencer that runs one against a device it cannot
//! touch itself.
//!
//! The driver never reads or writes a register. It holds a program, a list of
//! [`Op`]s, and hands out one [`Request`] at a time: the host performs the request
//! on the device and calls [`Sequencer::step`] again with what it read. Every
//! decision (what to write next, whether a wait has succeeded, when to
//! give up) is made here.

use crate::err::IgbError;
use crate::regs::Flags;
use vstd::prelude::*;

verus! {

/// Milliseconds between two polls of an awaited register.
pub const POLL_INTERVAL_MS: u64 = 1;

/// Polls after which a wait gives up.
pub const POLL_LIMIT: u32 = 1000;

/// One of the device's two queues.
#[derive(Debug, Clone, Copy, PartialEq, Eq, Structural)]
pub enum Queue {
    Rx,
    Tx,
}

/// One instruction of a register program.
#[derive(Debug, Clone, Copy, PartialEq, Eq, Structural)]
pub enum Op {
    /// Write `value` to `reg`.
    Write { reg: u32, value: u32 },
    /// Read `reg` and remember the value.
    Read { reg: u32 },
    /// Write to `reg` the value last read, restricted to the bits of `keep`, with
    /// the bits of `set` added.
    Rewrite { reg: u32, keep: u32, set: u32 },
    /// Read `reg` until its bits under `mask` equal `want`, sleeping
    /// `interval_ms` after each read that finds otherwise. With `tries` given,
    /// give up after that many reads; the program then ends in `Fatal` if
    /// `fatal`, else in `Failed`. Without, poll forever.
    Await { reg: u32, mask: u32, want: u32, interval_ms: u64, tries: Option<u32>, fatal: bool },
    /// Give every slot of the queue's ring a packet buffer.
    Populate { queue: Queue },
}

impl Op {
    /// Write the value `flags` to its register.
    pub fn write_reg<const R: u32>(flags: Flags<R>) -> (op: Op)
        ensures
            op == (Op::Write { reg: R, value: flags@ }),
    {
        Op::Write { reg: Flags::<R>::reg(), value: flags.bits() }
    }

    /// Read the register of `flags`, then write it back with the bits of `flags`
    /// set and every other bit as read: the two instructions of a read-modify-write.
    pub fn modify_reg<const R: u32>(flags: Flags<R>) -> (ops: [Op; 2])
        ensures
            ops@ == seq![
                Op::Read { reg: R },
                Op::Rewrite { reg: R, keep: 0xFFFF_FFFF, set: flags@ },
            ],
    {
        let ops = [
            Op::Read { reg: Flags::<R>::reg() },
            Op::Rewrite { reg: Flags::<R>::reg(), keep: 0xFFFF_FFFF, set: flags.bits() },
        ];
        assert(ops@ =~= seq![
            Op::Read { reg: R },
            Op::Rewrite { reg: R, keep: 0xFFFF_FFFF, set: flags@ },
        ]);
        ops
    }

    /// Poll the register of `mask`, every `interval_ms` milliseconds and at most
    /// `tries` times, until its bits under `mask` are those of `want`.
    pub fn wait_for<const R: u32>(
        mask: Flags<R>,
        want: Flags<R>,
        interval_ms: u64,
        tries: Option<u32>,
        fatal: bool,
    ) -> (op: Op)
        ensures
            op == (Op::Await { reg: R, mask: mask@, want: want@, interval_ms, tries, fatal }),
    {
        Op::Await {
            reg: Flags::<R>::reg(),
            mask: mask.bits(),
            want: want.bits(),
            interval_ms,
            tries,
            fatal,
        }
    }

    /// Poll, at the driver's usual pace, until every bit of `flags` reads as set.
    pub fn until_set<const R: u32>(flags: Flags<R>, fatal: bool) -> (op: Op)
        ensures
            op == (Op::Await {
                reg: R,
                mask: flags@,
                want: flags@,
                interval_ms: POLL_INTERVAL_MS,
                tries: Some(POLL_LIMIT),
                fatal,
            }),
    {
        Op::wait_for(flags, flags, POLL_INTERVAL_MS, Some(POLL_LIMIT), fatal)
    }

    /// Poll, at the driver's usual pace, until every bit of `flags` reads as clear.
    pub fn until_clear<const R: u32>(flags: Flags<R>, fatal: bool) -> (op: Op)
        ensures
            op == (Op::Await {
                reg: R,
                mask: flags@,
                want: 0,
                interval_ms: POLL_INTERVAL_MS,
                tries: Some(POLL_LIMIT),
                fatal,
            }),
    {
        Op::wait_for(flags, Flags::empty(), POLL_INTERVAL_MS, Some(POLL_LIMIT), fatal)
    }
}

/// What the sequencer asks of its host.
#[derive(Debug, Clone, Copy, PartialEq, Eq, Structural)]
pub enum Request {
    /// Write `value` to the register at `reg`.
    Write { reg: u32, value: u32 },
    /// Read the register at `reg` and pass the value to the next step.
    Read { reg: u32 },
    /// Sleep for about `millis` milliseconds.
    Sleep { millis: u64 },
    /// Populate the queue's ring.
    Populate { queue: Queue },
    /// The program has run to its end.
    Done,
    /// The program was given up; the caller may recover.
    Failed { error: IgbError },
    /// The program was given up and the device is in no usable state.
    Fatal { error: IgbError },
}

/// What the last request left outstanding.
#[derive(Debug, Clone, Copy, PartialEq, Eq, Structural)]
pub enum Pending {
    /// Nothing: the reply carries no information.
    Nothing,
    /// The read of a `Read`.
    Value,
    /// A read of an `Await`.
    Poll,
}

/// Where a sequencer stands in its program.
#[derive(Debug, Clone, Copy, PartialEq, Eq, Structural)]
pub struct State {
    /// Index of the instruction in progress.
    pub pc: usize,
    /// Reads of the `Await` in progress that did not find the awaited bits.
    pub polls: u32,
    /// The value last read from the device.
    pub last: u32,
    /// What the last request left outstanding.
    pub pending: Pending,
    /// The final request, once the program has ended.
    pub end: Option<Request>,
}

/// The state before the first step.
pub open spec fn start() -> State {
    State { pc: 0, polls: 0, last: 0, pending: Pending::Nothing, end: None }
}

/// Whether `value` shows the bits that an `Await` of `mask` and `want` waits for.
pub open spec fn satisfied(value: u32, mask: u32, want: u32) -> bool {
    value & mask == want
}

/// The request for the instruction at `s.pc`, and the state after making it.
pub open spec fn issue(program: Seq<Op>, s: State) -> (State, Request) {
    if s.pc >= program.len() {
        (State { end: Some(Request::Done), ..s }, Request::Done)
    } else {
        match program[s.pc as int] {
            Op::Write { reg, value } => (
                State { pc: (s.pc + 1) as usize, ..s },
                Request::Write { reg, value },
            ),
            Op::Read { reg } => (State { pending: Pending::Value, ..s }, Request::Read { reg }),
            Op::Rewrite { reg, keep, set } => (
                State { pc: (s.pc + 1) as usize, ..s },
                Request::Write { reg, value: (s.last & keep) | set },
            ),
            Op::Await { reg, tries, fatal, .. } => {
                if tries is Some && s.polls >= tries->0 {
                    let end = if fatal {
                        Request::Fatal { error: IgbError::Timeout }
                    } else {
                        Request::Failed { error: IgbError::Timeout }
                    };
                    (State { end: Some(end), ..s }, end)
                } else {
                    (State { pending: Pending::Poll, ..s }, Request::Read { reg })
                }
            },
            Op::Populate { queue } => (
                State { pc: (s.pc + 1) as usize, ..s },
                Request::Populate { queue },
            ),
        }
    }
}

/// One step: takes in `reply`, the value read if the last request was a read,
/// and gives the next request with the state after it. Once the program has
/// ended, every step repeats the final request.
pub open spec fn step(program: Seq<Op>, s: State, reply: u32) -> (State, Request) {
    if s.end is Some {
        (s, s.end->0)
    } else {
        match s.pending {
            Pending::Nothing => issue(program, s),
            Pending::Value => issue(
                program,
                State { pc: (s.pc + 1) as usize, last: reply, pending: Pending::Nothing, ..s },
            ),
            Pending::Poll => match program[s.pc as int] {
                Op::Await { mask, want, interval_ms, tries, .. } => {
                    if satisfied(reply, mask, want) {
                        issue(
                            program,
                            State {
                                pc: (s.pc + 1) as usize,
                                polls: 0,
                                last: reply,
                                pending: Pending::Nothing,
                                ..s
                            },
                        )
                    } else {
                        (
                            State {
                                polls: if tries is Some {
                                    (s.polls + 1) as u32
                                } else {
                                    s.polls
                                },
                                last: reply,
                                pending: Pending::Nothing,
                                ..s
                            },
                            Request::Sleep { millis: interval_ms },
                        )
                    }
                },
                _ => issue(program, State { pending: Pending::Nothing, ..s }),
            },
        }
    }
}

/// Whether `s` is a state that stepping through `program` can be in.
pub open spec fn reachable(program: Seq<Op>, s: State) -> bool {
    &&& s.pc <= program.len() <= usize::MAX
    &&& s.pending != Pending::Nothing ==> s.pc < program.len()
    &&& s.pending == Pending::Value ==> program[s.pc as int] is Read
    &&& s.pending == Pending::Poll ==> program[s.pc as int] is Await
    &&& s.end matches Some(r) ==> r is Done || r is Failed || r is Fatal
    &&& s.polls > 0 ==> s.pc < program.len() && program[s.pc as int] is Await
    &&& s.pc < program.len() ==> (program[s.pc as int] matches Op::Await { tries, .. } ==> (
    tries matches Some(t) ==> (s.polls <= t && (s.pending == Pending::Poll ==> s.polls < t))))
}

/// The requests of as many steps as there are `replies`, each step taking in
/// the next reply, from the state `s` on.
pub open spec fn requests(program: Seq<Op>, s: State, replies: Seq<u32>) -> Seq<Request>
    decreases replies.len(),
{
    if replies.len() == 0 {
        Seq::empty()
    } else {
        let (next, request) = step(program, s, replies[0]);
        seq![request] + requests(program, next, replies.drop_first())
    }
}

/// The state after as many steps as there are `replies`, from the state `s` on.
pub open spec fn run(program: Seq<Op>, s: State, replies: Seq<u32>) -> State
    decreases replies.len(),
{
    if replies.len() == 0 {
        s
    } else {
        run(program, step(program, s, replies[0]).0, replies.drop_first())
    }
}

/// The request that ends a program whose ring could not be given its buffers.
pub open spec fn out_of_memory() -> Request {
    Request::Fatal { error: IgbError::NoMemory }
}

/// One step of a host that populates the rings itself. Where the step asks
/// for a ring to be populated and the ring gets its buffers (`granted`), the
/// request is that of the step after, which is taken at once; where it does
/// not get them, the program ends in `Fatal` with `NoMemory`. Any other step
/// is the sequencer's own.
pub open spec fn served_step(program: Seq<Op>, s: State, reply: u32, granted: bool) -> (
    State,
    Request,
) {
    let (asked, request) = step(program, s, reply);
    if request is Populate {
        if granted {
            step(program, asked, 0)
        } else {
            (
                State { pending: Pending::Nothing, end: Some(out_of_memory()), ..asked },
                out_of_memory(),
            )
        }
    } else {
        (asked, request)
    }
}

/// The requests of as many served steps as there are `replies`, `grants`
/// saying of each step whether a ring populated in it gets its buffers.
pub open spec fn served_requests(
    program: Seq<Op>,
    s: State,
    replies: Seq<u32>,
    grants: Seq<bool>,
) -> Seq<Request>
    decreases replies.len(),
{
    if replies.len() == 0 {
        Seq::empty()
    } else {
        let (next, request) = served_step(program, s, replies[0], grants[0]);
        seq![request] + served_requests(
            program,
            next,
            replies.drop_first(),
            grants.drop_first(),
        )
    }
}

/// The state after as many served steps as there are `replies`.
pub open spec fn served_run(
    program: Seq<Op>,
    s: State,
    replies: Seq<u32>,
    grants: Seq<bool>,
) -> State
    decreases replies.len(),
{
    if replies.len() == 0 {
        s
    } else {
        served_run(
            program,
            served_step(program, s, replies[0], grants[0]).0,
            replies.drop_first(),
            grants.drop_first(),
        )
    }
}

/// A run can be cut in two: the requests of the whole are those of the first
/// part, then those of the second part from the state the first part ends in.
pub proof fn lemma_run_cut(program: Seq<Op>, s: State, first: Seq<u32>, second: Seq<u32>)
    ensures
        requests(program, s, first + second) == requests(program, s, first) + requests(
            program,
            run(program, s, first),
            second,
        ),
        run(program, s, first + second) == run(program, run(program, s, first), second),
    decreases first.len(),
{
    if first.len() == 0 {
        assert(first + second =~= second);
        assert(requests(program, s, first) =~= Seq::<Request>::empty());
        assert(requests(program, s, first + second) =~= requests(program, s, first) + requests(
            program,
            run(program, s, first),
            second,
        ));
    } else {
        let next = step(program, s, first[0]).0;
        assert((first + second)[0] == first[0]);
        assert((first + second).drop_first() =~= first.drop_first() + second);
        lemma_run_cut(program, next, first.drop_first(), second);
        assert(requests(program, s, first + second) =~= requests(program, s, first) + requests(
            program,
            run(program, s, first),
            second,
        ));
    }
}

/// A served run can be cut in two as the sequencer's own can.
pub proof fn lemma_served_run_cut(
    program: Seq<Op>,
    s: State,
    first: Seq<u32>,
    second: Seq<u32>,
    grants_first: Seq<bool>,
    grants_second: Seq<bool>,
)
    requires
        grants_first.len() == first.len(),
    ensures
        served_requests(program, s, first + second, grants_first + grants_second)
            == served_requests(program, s, first, grants_first) + served_requests(
            program,
            served_run(program, s, first, grants_first),
            second,
            grants_second,
        ),
        served_run(program, s, first + second, grants_first + grants_second) == served_run(
            program,
            served_run(program, s, first, grants_first),
            second,
            grants_second,
        ),
    decreases first.len(),
{
    let whole = first + second;
    let grants = grants_first + grants_second;
    if first.len() == 0 {
        assert(whole =~= second);
        assert(grants =~= grants_second);
        assert(served_requests(program, s, first, grants_first) =~= Seq::<Request>::empty());
        assert(served_requests(program, s, whole, grants) =~= served_requests(
            program,
            s,
            first,
            grants_first,
        ) + served_requests(
            program,
            served_run(program, s, first, grants_first),
            second,
            grants_second,
        ));
    } else {
        let next = served_step(program, s, first[0], grants_first[0]).0;
        assert(whole[0] == first[0] && grants[0] == grants_first[0]);
        assert(whole.drop_first() =~= first.drop_first() + second);
        assert(grants.drop_first() =~= grants_first.drop_first() + grants_second);
        lemma_served_run_cut(
            program,
            next,
            first.drop_first(),
            second,
            grants_first.drop_first(),
            grants_second,
        );
        assert(served_requests(program, s, whole, grants) =~= served_requests(
            program,
            s,
            first,
            grants_first,
        ) + served_requests(
            program,
            served_run(program, s, first, grants_first),
            second,
            grants_second,
        ));
    }
}

/// Where a run asks for no ring to be populated, the served run is the
/// sequencer's own, whatever would have been granted.
pub proof fn lemma_served_without_populate(
    program: Seq<Op>,
    s: State,
    replies: Seq<u32>,
    grants: Seq<bool>,
)
    requires
        forall|i: int|
            0 <= i < replies.len() ==> !(#[trigger] requests(program, s, replies)[i] is Populate),
    ensures
        requests(program, s, replies).len() == replies.len(),
        served_requests(program, s, replies, grants) == requests(program, s, replies),
        served_run(program, s, replies, grants) == run(program, s, replies),
    decreases replies.len(),
{
    if replies.len() > 0 {
        let (next, request) = step(program, s, replies[0]);
        let rest = requests(program, next, replies.drop_first());
        assert(requests(program, s, replies) == seq![request] + rest);
        lemma_requests_len(program, next, replies.drop_first());
        assert(requests(program, s, replies)[0] == request);
        assert forall|i: int| 0 <= i < replies.drop_first().len() implies !(#[trigger] rest[i]
            is Populate) by {
            assert(requests(program, s, replies)[i + 1] == rest[i]);
        }
        lemma_served_without_populate(program, next, replies.drop_first(), grants.drop_first());
    }
}

/// A run asks once for each reply.
pub proof fn lemma_requests_len(program: Seq<Op>, s: State, replies: Seq<u32>)
    ensures
        requests(program, s, replies).len() == replies.len(),
    decreases replies.len(),
{
    if replies.len() > 0 {
        lemma_requests_len(program, step(program, s, replies[0]).0, replies.drop_first());
    }
}

/// A served step that populates a ring takes two steps of the sequencer in
/// one: the request for the ring is not passed on, and the step after it is
/// taken with a reply of zero.
pub proof fn lemma_served_populate(program: Seq<Op>, s: State, reply: u32)
    requires
        step(program, s, reply).1 is Populate,
    ensures
        served_requests(program, s, seq![reply], seq![true]) == requests(
            program,
            s,
            seq![reply, 0u32],
        ).subrange(1, 2),
        served_run(program, s, seq![reply], seq![true]) == run(program, s, seq![reply, 0u32]),
{
    let one = seq![reply];
    let two = seq![reply, 0u32];
    let (asked, request) = step(program, s, reply);
    let (next, following) = step(program, asked, 0);
    assert(two.drop_first() =~= seq![0u32]);
    assert(seq![0u32].drop_first() =~= Seq::<u32>::empty());
    assert(one.drop_first() =~= Seq::<u32>::empty());
    assert(seq![true].drop_first() =~= Seq::<bool>::empty());
    assert(requests(program, next, Seq::<u32>::empty()) =~= Seq::<Request>::empty());
    assert(requests(program, asked, seq![0u32]) =~= seq![following]);
    assert(requests(program, s, two) =~= seq![request, following]);
    assert(served_requests(program, next, Seq::<u32>::empty(), Seq::<bool>::empty())
        =~= Seq::<Request>::empty());
    assert(served_requests(program, s, one, seq![true]) =~= seq![following]);
    assert(requests(program, s, two).subrange(1, 2) =~= seq![following]);
    assert(run(program, next, Seq::<u32>::empty()) == next);
    assert(run(program, asked, seq![0u32]) == next);
    assert(run(program, s, two) == next);
    assert(served_run(program, next, Seq::<u32>::empty(), Seq::<bool>::empty()) == next);
    assert(served_run(program, s, one, seq![true]) == next);
}

/// What `polling` holds: reads at the even places, sleeps at the odd ones.
pub proof fn lemma_polling(reg: u32, interval_ms: u64, n: nat)
    ensures
        polling(reg, interval_ms, n).len() == 2 * n,
        forall|i: int|
            0 <= i < 2 * n ==> #[trigger] polling(reg, interval_ms, n)[i] == (if i % 2 == 0 {
                Request::Read { reg }
            } else {
                Request::Sleep { millis: interval_ms }
            }),
    decreases n,
{
    if n > 0 {
        lemma_polling(reg, interval_ms, (n - 1) as nat);
        let rest = polling(reg, interval_ms, (n - 1) as nat);
        assert forall|i: int| 0 <= i < 2 * n implies #[trigger] polling(reg, interval_ms, n)[i]
            == (if i % 2 == 0 {
            Request::Read { reg }
        } else {
            Request::Sleep { millis: interval_ms }
        }) by {
            if i >= 2 {
                assert(polling(reg, interval_ms, n)[i] == rest[i - 2]);
            }
        }
    }
}

/// `n` polls of `reg` that each find nothing: a read, then a sleep, `n` times.
pub open spec fn polling(reg: u32, interval_ms: u64, n: nat) -> Seq<Request>
    decreases n,
{
    if n == 0 {
        Seq::empty()
    } else {
        seq![Request::Read { reg }, Request::Sleep { millis: interval_ms }] + polling(
            reg,
            interval_ms,
            (n - 1) as nat,
        )
    }
}

/// The request that ends a program whose wait has run out.
pub open spec fn timed_out(fatal: bool) -> Request {
    if fatal {
        Request::Fatal { error: IgbError::Timeout }
    } else {
        Request::Failed { error: IgbError::Timeout }
    }
}

/// A wait that never finds its bits gives up after exactly its tries. From a
/// state that stands at the limited wait `wait` with `left` tries to go, if none
/// of the next `left` values read shows the awaited bits, the sequencer asks for
/// exactly `left` reads of the register, each followed by a sleep of the wait's
/// interval, and then ends the program with a timeout: fatal if the wait is
/// fatal, recoverable if not. (The value read is the reply to the step after
/// the read: of `replies`, those at the odd places.)
pub proof fn lemma_wait_runs_out(
    program: Seq<Op>,
    s: State,
    replies: Seq<u32>,
    left: nat,
    reg: u32,
    mask: u32,
    want: u32,
    interval_ms: u64,
    fatal: bool,
)
    requires
        reachable(program, s),
        s.end is None,
        s.pending == Pending::Nothing,
        s.pc < program.len(),
        s.polls + left <= u32::MAX,
        program[s.pc as int] == (Op::Await {
            reg,
            mask,
            want,
            interval_ms,
            tries: Some((s.polls + left) as u32),
            fatal,
        }),
        replies.len() == 2 * left + 1,
        forall|j: int| 0 <= j < left ==> !satisfied(#[trigger] replies[2 * j + 1], mask, want),
    ensures
        requests(program, s, replies) == polling(reg, interval_ms, left) + seq![timed_out(fatal)],
    decreases left,
{
    let (s1, r1) = step(program, s, replies[0]);
    let rest1 = replies.drop_first();
    if left == 0 {
        assert(requests(program, s1, rest1) =~= Seq::<Request>::empty());
        assert(requests(program, s, replies) =~= polling(reg, interval_ms, left) + seq![
            timed_out(fatal),
        ]);
    } else {
        let (s2, r2) = step(program, s1, rest1[0]);
        let rest2 = rest1.drop_first();
        assert(rest1[0] == replies[2 * 0int + 1]);
        assert(r1 == (Request::Read { reg }));
        assert(r2 == (Request::Sleep { millis: interval_ms }));
        assert forall|j: int| 0 <= j < left - 1 implies !satisfied(
            #[trigger] rest2[2 * j + 1],
            mask,
            want,
        ) by {
            assert(rest2[2 * j + 1] == replies[2 * (j + 1) + 1]);
        }
        lemma_wait_runs_out(
            program,
            s2,
            rest2,
            (left - 1) as nat,
            reg,
            mask,
            want,
            interval_ms,
            fatal,
        );
        assert(requests(program, s1, rest1) == seq![r2] + requests(program, s2, rest2));
        assert(requests(program, s, replies) =~= polling(reg, interval_ms, left) + seq![
            timed_out(fatal),
        ]);
    }
}

/// What instruction `i` asks of the host where it is carried out in one step,
/// `replies[i]` being the value read just before it.
pub open spec fn ask(program: Seq<Op>, i: int, replies: Seq<u32>) -> Request {
    match program[i] {
        Op::Write { reg, value } => Request::Write { reg, value },
        Op::Read { reg } => Request::Read { reg },
        Op::Rewrite { reg, keep, set } => Request::Write { reg, value: (replies[i] & keep) | set },
        Op::Await { reg, .. } => Request::Read { reg },
        Op::Populate { queue } => Request::Populate { queue },
    }
}

/// Whether `replies` are those of a device that shows the awaited bits at the
/// first poll of every wait of `program`: one reply per instruction and one
/// more, that to a wait satisfying it. It is also asked of the program that no
/// wait has zero tries, and that what is rewritten was read just before.
pub open spec fn willing(program: Seq<Op>, replies: Seq<u32>) -> bool {
    &&& replies.len() == program.len() + 1
    &&& forall|i: int|
        0 <= i < program.len() ==> (#[trigger] program[i] matches Op::Await {
            mask,
            want,
            tries,
            ..
        } ==> tries != Some(0u32) && satisfied(replies[i + 1], mask, want))
    &&& forall|i: int|
        0 <= i < program.len() && (#[trigger] program[i]) is Rewrite ==> i > 0 && (program[i
            - 1] is Read || program[i - 1] is Await)
}

/// Whether `s` is the state of a run on a willing device before the step that
/// asks for instruction `k`.
pub open spec fn standing_at(program: Seq<Op>, s: State, k: int) -> bool {
    &&& s.end is None
    &&& s.polls == 0
    &&& match s.pending {
        Pending::Nothing => s.pc == k && !(k < program.len() && program[k] is Rewrite),
        Pending::Value => k >= 1 && s.pc == k - 1 && program[k - 1] is Read,
        Pending::Poll => k >= 1 && s.pc == k - 1 && program[k - 1] is Await,
    }
}

/// On a willing device a run goes through its program one instruction a step.
proof fn lemma_willing_from(program: Seq<Op>, s: State, k: int, replies: Seq<u32>)
    requires
        program.len() <= usize::MAX,
        willing(program, replies),
        0 <= k <= program.len(),
        standing_at(program, s, k),
    ensures
        requests(program, s, replies.subrange(k, replies.len() as int)) == Seq::new(
            (program.len() - k) as nat,
            |i: int| ask(program, k + i, replies),
        ) + seq![Request::Done],
    decreases program.len() - k,
{
    let here = replies.subrange(k, replies.len() as int);
    let (next, request) = step(program, s, here[0]);
    let rest = here.drop_first();
    let asked = Seq::new((program.len() - k) as nat, |i: int| ask(program, k + i, replies));
    assert(here[0] == replies[k]);
    if k >= 1 {
        assert(program[k - 1] is Await ==> satisfied(replies[k - 1 + 1], program[k - 1]->mask,
            program[k - 1]->want));
    }
    if k == program.len() {
        assert(request == Request::Done);
        assert(requests(program, next, rest) =~= Seq::<Request>::empty());
        assert(requests(program, s, here) =~= asked + seq![Request::Done]);
    } else {
        let op = program[k];
        assert(request == ask(program, k, replies));
        assert(standing_at(program, next, k + 1)) by {
            if k + 1 < program.len() && program[k + 1] is Rewrite {
                assert(program[k + 1 - 1] is Read || program[k + 1 - 1] is Await);
            }
        }
        assert(rest =~= replies.subrange(k + 1, replies.len() as int));
        lemma_willing_from(program, next, k + 1, replies);
        let later = Seq::new(
            (program.len() - (k + 1)) as nat,
            |i: int| ask(program, k + 1 + i, replies),
        );
        assert(asked =~= seq![request] + later);
        assert(requests(program, s, here) =~= asked + seq![Request::Done]);
    }
}

/// On a device that shows the awaited bits at the first poll of every wait, a
/// program is carried out one instruction a step, in order, without a sleep,
/// and ends done: the requests are what each instruction asks, then `Done`.
pub proof fn lemma_willing_run(program: Seq<Op>, replies: Seq<u32>)
    requires
        program.len() <= usize::MAX,
        willing(program, replies),
    ensures
        requests(program, start(), replies) == Seq::new(
            program.len(),
            |i: int| ask(program, i, replies),
        ) + seq![Request::Done],
{
    assert(!(program.len() > 0 && program[0] is Rewrite));
    lemma_willing_from(program, start(), 0, replies);
    assert(replies.subrange(0, replies.len() as int) =~= replies);
    assert(Seq::new((program.len() - 0) as nat, |i: int| ask(program, 0 + i, replies))
        =~= Seq::new(program.len(), |i: int| ask(program, i, replies)));
}

/// Once a program has ended, every further step repeats the final request and
/// changes nothing.
pub proof fn lemma_end_is_final(program: Seq<Op>, s: State, reply: u32)
    requires
        s.end is Some,
    ensures
        step(program, s, reply) == (s, s.end->0),
{
}

/// A request to populate a ring comes from a `Populate` instruction, which the
/// sequencer has then left behind with nothing outstanding.
pub proof fn lemma_populate_request(program: Seq<Op>, s: State, reply: u32)
    requires
        reachable(program, s),
        step(program, s, reply).1 is Populate,
    ensures
        ({
            let s1 = step(program, s, reply).0;
            &&& reachable(program, s1)
            &&& s1.end is None
            &&& s1.pending == Pending::Nothing
            &&& 0 < s1.pc <= program.len()
            &&& program[s1.pc - 1] == (Op::Populate { queue: step(program, s, reply).1->queue })
        }),
{
}

/// Runs a register program, one request at a time.
pub struct Sequencer {
    program: Vec<Op>,
    state: State,
}

impl Sequencer {
    /// The program being run.
    pub closed spec fn program(&self) -> Seq<Op> {
        self.program@
    }

    /// Where the sequencer stands.
    pub closed spec fn state(&self) -> State {
        self.state
    }

    /// What holds of every sequencer: its state is one its program can be in.
    pub open spec fn wf(&self) -> bool {
        reachable(self.program(), self.state())
    }

    /// A sequencer at the start of `program`.
    pub fn new(program: Vec<Op>) -> (s: Self)
        ensures
            s.wf(),
            s.program() == program@,
            s.state() == start(),
    {
        assert(program@.len() == program.len());
        Sequencer {
            program,
            state: State { pc: 0, polls: 0, last: 0, pending: Pending::Nothing, end: None },
        }
    }

    /// Where the sequencer stands.
    pub fn current(&self) -> (s: State)
        ensures
            s == self.state(),
    {
        self.state
    }

    /// Takes in the host's reply to the last request and gives the next one.
    /// `reply` is the value read where the last request was a `Read`, and is
    /// ignored otherwise, as on the first step.
    pub fn step(&mut self, reply: u32) -> (req: Request)
        requires
            old(self).wf(),
        ensures
            final(self).wf(),
            final(self).program() == old(self).program(),
            (final(self).state(), req) == step(old(self).program(), old(self).state(), reply),
    {
        if let Some(end) = self.state.end {
            return end;
        }
        let len: usize = self.program.len();
        match self.state.pending {
            Pending::Nothing => {},
            Pending::Value => {
                self.state.pc = self.state.pc + 1;
                self.state.last = reply;
                self.state.pending = Pending::Nothing;
            },
            Pending::Poll => {
                self.state.last = reply;
                self.state.pending = Pending::Nothing;
                if let Op::Await { mask, want, interval_ms, tries, .. } =
                    self.program[self.state.pc] {
                    if reply & mask == want {
                        self.state.pc = self.state.pc + 1;
                        self.state.polls = 0;
                    } else {
                        if tries.is_some() {
                            self.state.polls = self.state.polls + 1;
                        }
                        return Request::Sleep { millis: interval_ms };
                    }
                }
            },
        }
        self.issue(len)
    }

    /// Ends the program in `Fatal` with `error`, whatever was outstanding.
    pub fn abort(&mut self, error: IgbError) -> (req: Request)
        requires
            old(self).wf(),
        ensures
            final(self).wf(),
            final(self).program() == old(self).program(),
            req == (Request::Fatal { error }),
            final(self).state() == (State {
                pending: Pending::Nothing,
                end: Some(req),
                ..old(self).state()
            }),
    {
        let req = Request::Fatal { error };
        self.state.pending = Pending::Nothing;
        self.state.end = Some(req);
        req
    }

    fn issue(&mut self, len: usize) -> (req: Request)
        requires
            old(self).wf(),
            len == old(self).program().len(),
            old(self).state().pending == Pending::Nothing,
            old(self).state().end is None,
        ensures
            final(self).wf(),
            final(self).program() == old(self).program(),
            (final(self).state(), req) == issue(old(self).program(), old(self).state()),
    {
        if self.state.pc >= len {
            self.state.end = Some(Request::Done);
            return Request::Done;
        }
        match self.program[self.state.pc] {
            Op::Write { reg, value } => {
                self.state.pc = self.state.pc + 1;
                Request::Write { reg, value }
            },
            Op::Read { reg } => {
                self.state.pending = Pending::Value;
                Request::Read { reg }
            },
            Op::Rewrite { reg, keep, set } => {
                self.state.pc = self.state.pc + 1;
                Request::Write { reg, value: (self.state.last & keep) | set }
            },
            Op::Await { reg, tries, fatal, .. } => {
                let spent = match tries {
                    Some(t) => self.state.polls >= t,
                    None => false,
                };
                if spent {
                    let end = if fatal {
                        Request::Fatal { error: IgbError::Timeout }
                    } else {
                        Request::Failed { error: IgbError::Timeout }
                    };
                    self.state.end = Some(end);
                    end
                } else {
                    self.state.pending = Pending::Poll;
                    Request::Read { reg }
                }
            },
            Op::Populate { queue } => {
                self.state.pc = self.state.pc + 1;
                Request::Populate { queue }
            },
        }
    }
}

} // verus!
