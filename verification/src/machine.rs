//! The connection-resilient command loop as an explicit state machine.
//!
//! The machine owns every decision of the loop: what to do next
//! ([`Machine::next_action`]) and how the outcome of that action changes the
//! state ([`Machine::step`]). The surrounding program performs the actions —
//! read the stream, drive the device, publish status, sleep, retry the
//! connection — and reports each outcome back as an [`Event`]. The machine
//! never blocks and never touches the outside world, so every rule of the
//! loop is stated and proved here:
//!
//! * a command becomes a fixed sequence of timed operations ([`plan`]);
//! * a status-publish failure never disturbs the remaining operations, while
//!   a device failure aborts the loop ([`lemma_command_completion`],
//!   [`lemma_device_failure_aborts`]);
//! * reconnection is a fixed budget of evenly spaced attempts
//!   ([`lemma_reconnect_exhaustion`], [`lemma_reconnect_recovery`]);
//! * every termination path issues exactly one final neutral device write.

use vstd::prelude::*;

use crate::command::{Blink, Color, Command, off_color, off_spec};

verus! {

/// How many reconnect attempts are made before the loop gives up.
pub const RECONNECT_BUDGET: u64 = 12;

/// How long the loop waits before each reconnect attempt, in milliseconds.
pub const RECONNECT_INTERVAL_MS: u64 = 1000;

/// The keep-alive interval of the broker session, in seconds.
pub const KEEP_ALIVE_SECS: u64 = 20;

/// One operation of a command's execution.
#[derive(Clone, Copy, Debug, PartialEq, Eq, Structural)]
pub enum Op {
    /// Set the device to a color; fallible, and fatal on failure.
    Device(Color),
    /// Publish a color on the status topic; fallible, best-effort.
    Status(Color),
    /// Sleep for the given number of milliseconds.
    Pause(u64),
}

/// What the loop asks its surroundings to do next.
#[derive(Clone, Copy, Debug, PartialEq, Eq, Structural)]
pub enum Action {
    /// Block until the message stream yields its next item.
    Wait,
    /// Set the device to this color, then report success or failure.
    SetDevice(Color),
    /// Publish this color on the status topic, then report the outcome.
    Publish(Color),
    /// Sleep this many milliseconds, then report back.
    Sleep(u64),
    /// Wait out the retry interval, attempt one reconnect, report the outcome.
    Reconnect,
    /// The loop is over; `failed` tells a crash from a clean shutdown.
    Stop { failed: bool },
}

/// What the surroundings report back to the loop.
#[derive(Clone, Copy, Debug, PartialEq, Eq, Structural)]
pub enum Event {
    /// The stream yielded a message that decoded into a command.
    Command(Command),
    /// The stream yielded nothing and the session still looks connected.
    EmptyConnected,
    /// The stream yielded nothing and the session is down.
    EmptyDisconnected,
    /// The operator asked the process to stop.
    ShutdownRequested,
    /// The device accepted the last `SetDevice`.
    DeviceOk,
    /// The device refused the last `SetDevice`.
    DeviceFailed,
    /// The last `Publish` went out.
    PublishOk,
    /// The last `Publish` failed; status mirroring is best-effort.
    PublishFailed,
    /// The last `Sleep` elapsed.
    Slept,
    /// The last `Reconnect` attempt restored the session.
    ReconnectOk,
    /// The last `Reconnect` attempt failed.
    ReconnectFailed,
}

/// Where the loop stands.
#[derive(Clone, Copy, Debug, PartialEq, Eq, Structural)]
pub enum Phase {
    /// Waiting for the next stream item.
    Idle,
    /// Executing the operations of one command, strictly in order.
    Running,
    /// The session is down; `left` attempts of the budget remain.
    Reconnecting { left: u64 },
    /// The loop is over but the final neutral device write is still owed.
    Cleanup { failed: bool },
    /// Terminal.
    Done { failed: bool },
}

/// The machine as contracts see it.
#[verifier::ext_equal]
pub ghost struct M {
    pub phase: Phase,
    /// The operations of the current command that are still owed.
    pub ops: Seq<Op>,
    /// A shutdown was requested while a command was executing; the loop
    /// finishes the command, then cleans up.
    pub stop_requested: bool,
}

/// The plan of one blink cycle: color on, pause, off, pause, with the status
/// topic mirroring each device write.
pub open spec fn cycle_spec(b: Blink) -> Seq<Op> {
    seq![
        Op::Device(b.color),
        Op::Status(b.color),
        Op::Pause(b.interval_ms),
        Op::Device(off_spec()),
        Op::Status(off_spec()),
        Op::Pause(b.interval_ms),
    ]
}

/// The plan of the first `k` cycles of a blink command.
pub open spec fn blink_ops_spec(b: Blink, k: nat) -> Seq<Op>
    decreases k,
{
    if k == 0 {
        Seq::empty()
    } else {
        blink_ops_spec(b, (k - 1) as nat) + cycle_spec(b)
    }
}

/// The operations a command is owed: one device write and one status publish
/// for a plain color, `count` blink cycles for a blink.
pub open spec fn plan_spec(cmd: Command) -> Seq<Op> {
    match cmd {
        Command::Color { color } => seq![Op::Device(color), Op::Status(color)],
        Command::Blink { blink } => blink_ops_spec(blink, blink.count as nat),
    }
}

/// The action an operation asks for.
pub open spec fn op_action(op: Op) -> Action {
    match op {
        Op::Device(c) => Action::SetDevice(c),
        Op::Status(c) => Action::Publish(c),
        Op::Pause(ms) => Action::Sleep(ms),
    }
}

/// The action owed in a state: wait when idle, the front operation while a
/// command runs, a retry while reconnecting, the final neutral device write
/// while cleaning up, and stop once done.
pub open spec fn action_spec(m: M) -> Action {
    match m.phase {
        Phase::Idle => Action::Wait,
        Phase::Running => op_action(m.ops[0]),
        Phase::Reconnecting { .. } => Action::Reconnect,
        Phase::Cleanup { .. } => Action::SetDevice(off_spec()),
        Phase::Done { failed } => Action::Stop { failed },
    }
}

/// Operations are owed exactly while a command runs, and the retry budget is
/// never overdrawn.
pub open spec fn wf_spec(m: M) -> bool {
    &&& (m.phase matches Phase::Running <==> m.ops.len() > 0)
    &&& (m.phase matches Phase::Reconnecting { left } ==> 1 <= left <= RECONNECT_BUDGET)
}

/// The state at startup.
pub open spec fn init_spec() -> M {
    M { phase: Phase::Idle, ops: Seq::empty(), stop_requested: false }
}

/// The front operation is done: drop it, and when none are left either go
/// back to waiting or, if a shutdown was requested meanwhile, start cleanup.
pub open spec fn advance_spec(m: M) -> M {
    let rest = m.ops.skip(1);
    if rest.len() == 0 {
        if m.stop_requested {
            M { phase: Phase::Cleanup { failed: false }, ops: rest, stop_requested: m.stop_requested }
        } else {
            M { phase: Phase::Idle, ops: rest, stop_requested: m.stop_requested }
        }
    } else {
        M { phase: Phase::Running, ops: rest, stop_requested: m.stop_requested }
    }
}

/// The whole law of the loop: how each state answers each event. An event
/// that is no answer to the owed action leaves the state unchanged.
pub open spec fn step_spec(m: M, ev: Event) -> M {
    match m.phase {
        Phase::Idle => match ev {
            Event::Command(cmd) => {
                let ops = plan_spec(cmd);
                if ops.len() == 0 {
                    m
                } else {
                    M { phase: Phase::Running, ops, stop_requested: m.stop_requested }
                }
            },
            Event::EmptyConnected => m,
            Event::EmptyDisconnected => M {
                phase: Phase::Reconnecting { left: RECONNECT_BUDGET },
                ops: m.ops,
                stop_requested: m.stop_requested,
            },
            Event::ShutdownRequested => M {
                phase: Phase::Cleanup { failed: false },
                ops: m.ops,
                stop_requested: m.stop_requested,
            },
            _ => m,
        },
        Phase::Running => match (m.ops[0], ev) {
            (Op::Device(_), Event::DeviceOk) => advance_spec(m),
            (Op::Device(_), Event::DeviceFailed) => M {
                phase: Phase::Cleanup { failed: true },
                ops: Seq::empty(),
                stop_requested: m.stop_requested,
            },
            (Op::Status(_), Event::PublishOk) => advance_spec(m),
            (Op::Status(_), Event::PublishFailed) => advance_spec(m),
            (Op::Pause(_), Event::Slept) => advance_spec(m),
            (_, Event::ShutdownRequested) => M {
                phase: m.phase,
                ops: m.ops,
                stop_requested: true,
            },
            _ => m,
        },
        Phase::Reconnecting { left } => match ev {
            Event::ReconnectOk => M { phase: Phase::Idle, ops: m.ops, stop_requested: m.stop_requested },
            Event::ReconnectFailed => if left > 1 {
                M {
                    phase: Phase::Reconnecting { left: (left - 1) as u64 },
                    ops: m.ops,
                    stop_requested: m.stop_requested,
                }
            } else {
                M { phase: Phase::Cleanup { failed: false }, ops: m.ops, stop_requested: m.stop_requested }
            },
            Event::ShutdownRequested => M {
                phase: Phase::Cleanup { failed: false },
                ops: m.ops,
                stop_requested: m.stop_requested,
            },
            _ => m,
        },
        Phase::Cleanup { failed } => match ev {
            Event::DeviceOk => M { phase: Phase::Done { failed }, ops: m.ops, stop_requested: m.stop_requested },
            Event::DeviceFailed => M {
                phase: Phase::Done { failed },
                ops: m.ops,
                stop_requested: m.stop_requested,
            },
            _ => m,
        },
        Phase::Done { .. } => m,
    }
}

/// Turns a command into the exact sequence of operations it is owed.
pub fn plan(cmd: &Command) -> (r: Vec<Op>)
    ensures
        r@ == plan_spec(*cmd),
{
    match cmd {
        Command::Color { color } => {
            let mut v: Vec<Op> = Vec::new();
            v.push(Op::Device(*color));
            v.push(Op::Status(*color));
            proof {
                assert(v@ =~= plan_spec(*cmd));
            }
            v
        },
        Command::Blink { blink } => {
            let mut v: Vec<Op> = Vec::new();
            let mut i: u64 = 0;
            while i < blink.count
                invariant
                    i <= blink.count,
                    v@ == blink_ops_spec(*blink, i as nat),
                decreases blink.count - i,
            {
                v.push(Op::Device(blink.color));
                v.push(Op::Status(blink.color));
                v.push(Op::Pause(blink.interval_ms));
                v.push(Op::Device(off_color()));
                v.push(Op::Status(off_color()));
                v.push(Op::Pause(blink.interval_ms));
                proof {
                    assert(v@ =~= blink_ops_spec(*blink, (i + 1) as nat));
                }
                i = i + 1;
            }
            v
        },
    }
}

/// The command loop's state.
pub struct Machine {
    pub phase: Phase,
    pub ops: Vec<Op>,
    pub stop_requested: bool,
}

impl View for Machine {
    type V = M;

    open spec fn view(&self) -> M {
        M { phase: self.phase, ops: self.ops@, stop_requested: self.stop_requested }
    }
}

impl Machine {
    /// The machine's invariant; every method keeps it.
    pub open spec fn wf(&self) -> bool {
        wf_spec(self@)
    }

    /// A fresh loop, waiting for its first stream item.
    pub fn new() -> (m: Machine)
        ensures
            m@ == init_spec(),
            m.wf(),
    {
        let m = Machine { phase: Phase::Idle, ops: Vec::new(), stop_requested: false };
        proof {
            assert(m@ =~= init_spec());
        }
        m
    }

    /// What the loop's surroundings must do next.
    pub fn next_action(&self) -> (a: Action)
        requires
            self.wf(),
        ensures
            a == action_spec(self@),
    {
        match self.phase {
            Phase::Idle => Action::Wait,
            Phase::Running => {
                let op = self.ops[0];
                match op {
                    Op::Device(c) => Action::SetDevice(c),
                    Op::Status(c) => Action::Publish(c),
                    Op::Pause(ms) => Action::Sleep(ms),
                }
            },
            Phase::Reconnecting { .. } => Action::Reconnect,
            Phase::Cleanup { .. } => Action::SetDevice(off_color()),
            Phase::Done { failed } => Action::Stop { failed },
        }
    }

    /// Drops the finished front operation.
    fn advance(&mut self)
        requires
            old(self).wf(),
            old(self)@.phase matches Phase::Running,
        ensures
            final(self)@ == advance_spec(old(self)@),
            final(self).wf(),
    {
        self.ops.remove(0);
        proof {
            assert(self.ops@ =~= old(self).ops@.skip(1));
        }
        if self.ops.len() == 0 {
            if self.stop_requested {
                self.phase = Phase::Cleanup { failed: false };
            } else {
                self.phase = Phase::Idle;
            }
        }
        proof {
            assert(self@ =~= advance_spec(old(self)@));
        }
    }

    /// Feeds the outcome of the last action back into the loop.
    pub fn step(&mut self, ev: Event)
        requires
            old(self).wf(),
        ensures
            final(self)@ == step_spec(old(self)@, ev),
            final(self).wf(),
    {
        let ph = self.phase;
        match ph {
            Phase::Idle => match ev {
                Event::Command(cmd) => {
                    let ops = plan(&cmd);
                    if ops.len() > 0 {
                        self.phase = Phase::Running;
                        self.ops = ops;
                    }
                },
                Event::EmptyDisconnected => {
                    self.phase = Phase::Reconnecting { left: RECONNECT_BUDGET };
                },
                Event::ShutdownRequested => {
                    self.phase = Phase::Cleanup { failed: false };
                },
                _ => {},
            },
            Phase::Running => {
                let front = self.ops[0];
                match (front, ev) {
                    (Op::Device(_), Event::DeviceOk) => self.advance(),
                    (Op::Device(_), Event::DeviceFailed) => {
                        self.ops.clear();
                        self.phase = Phase::Cleanup { failed: true };
                    },
                    (Op::Status(_), Event::PublishOk) => self.advance(),
                    (Op::Status(_), Event::PublishFailed) => self.advance(),
                    (Op::Pause(_), Event::Slept) => self.advance(),
                    (_, Event::ShutdownRequested) => {
                        self.stop_requested = true;
                    },
                    _ => {},
                }
            },
            Phase::Reconnecting { left } => match ev {
                Event::ReconnectOk => {
                    self.phase = Phase::Idle;
                },
                Event::ReconnectFailed => {
                    if left > 1 {
                        self.phase = Phase::Reconnecting { left: left - 1 };
                    } else {
                        self.phase = Phase::Cleanup { failed: false };
                    }
                },
                Event::ShutdownRequested => {
                    self.phase = Phase::Cleanup { failed: false };
                },
                _ => {},
            },
            Phase::Cleanup { failed } => match ev {
                Event::DeviceOk => {
                    self.phase = Phase::Done { failed };
                },
                Event::DeviceFailed => {
                    self.phase = Phase::Done { failed };
                },
                _ => {},
            },
            Phase::Done { .. } => {},
        }
        proof {
            assert(self@ =~= step_spec(old(self)@, ev));
        }
    }
}


/// The state after a run of events.
pub open spec fn run_spec(m: M, evs: Seq<Event>) -> M
    decreases evs.len(),
{
    if evs.len() == 0 {
        m
    } else {
        run_spec(step_spec(m, evs[0]), evs.skip(1))
    }
}

/// The actions a run performs: the action owed before each event of the run.
pub open spec fn trace_actions(m: M, evs: Seq<Event>) -> Seq<Action>
    decreases evs.len(),
{
    if evs.len() == 0 {
        Seq::empty()
    } else {
        seq![action_spec(m)] + trace_actions(step_spec(m, evs[0]), evs.skip(1))
    }
}

/// The event is a well-formed answer to the operation's action, with the
/// device succeeding and the publish going either way.
pub open spec fn op_event_ok(op: Op, ev: Event) -> bool {
    match op {
        Op::Device(_) => ev == Event::DeviceOk,
        Op::Status(_) => ev == Event::PublishOk || ev == Event::PublishFailed,
        Op::Pause(_) => ev == Event::Slept,
    }
}

/// Every operation is answered in order, every device write succeeds, and
/// every status publish is answered one way or the other.
pub open spec fn conforms(ops: Seq<Op>, evs: Seq<Event>) -> bool {
    &&& evs.len() == ops.len()
    &&& forall|i: int| 0 <= i < ops.len() ==> op_event_ok(ops[i], #[trigger] evs[i])
}

/// The actions a sequence of operations asks for, in order.
pub open spec fn ops_actions(ops: Seq<Op>) -> Seq<Action>
    decreases ops.len(),
{
    if ops.len() == 0 {
        Seq::empty()
    } else {
        seq![op_action(ops[0])] + ops_actions(ops.skip(1))
    }
}

/// Law: while a command executes, as long as the device keeps accepting
/// writes, the loop performs exactly the command's operations, in order,
/// whether or not any status publish fails — and then goes back to waiting.
pub proof fn lemma_command_completion(m: M, evs: Seq<Event>)
    requires
        m.phase == Phase::Running,
        m.ops.len() > 0,
        !m.stop_requested,
        conforms(m.ops, evs),
    ensures
        run_spec(m, evs).phase == Phase::Idle,
        run_spec(m, evs).ops.len() == 0,
        trace_actions(m, evs) == ops_actions(m.ops),
    decreases evs.len(),
{
    assert(op_event_ok(m.ops[0], evs[0]));
    let m1 = step_spec(m, evs[0]);
    assert(m1 == advance_spec(m));
    if m.ops.len() == 1 {
        assert(m1.phase == Phase::Idle);
        assert(evs.skip(1).len() == 0);
        assert(trace_actions(m1, evs.skip(1)) =~= Seq::<Action>::empty());
        assert(m.ops.skip(1).len() == 0);
        assert(ops_actions(m.ops.skip(1)) =~= Seq::<Action>::empty());
        assert(trace_actions(m, evs) =~= seq![op_action(m.ops[0])]);
        assert(ops_actions(m.ops) =~= seq![op_action(m.ops[0])]);
    } else {
        assert(m1.phase == Phase::Running);
        assert(m1.ops =~= m.ops.skip(1));
        assert forall|i: int| 0 <= i < m1.ops.len() implies op_event_ok(
            m1.ops[i],
            #[trigger] evs.skip(1)[i],
        ) by {
            assert(m1.ops[i] == m.ops[i + 1]);
            assert(evs.skip(1)[i] == evs[i + 1]);
            assert(op_event_ok(m.ops[i + 1], evs[i + 1]));
        }
        lemma_command_completion(m1, evs.skip(1));
        assert(ops_actions(m1.ops) == ops_actions(m.ops.skip(1)));
        assert(trace_actions(m, evs) =~= seq![op_action(m.ops[0])] + trace_actions(m1, evs.skip(1)));
        assert(trace_actions(m, evs) =~= ops_actions(m.ops));
    }
}

/// Law: a device failure aborts the loop. From any point of any command's
/// execution, however many operations remain, a refused device write is
/// followed by exactly one action on the device — the final neutral write —
/// and then by stop, reported as a failure.
pub proof fn lemma_device_failure_aborts(m: M, cleanup_ev: Event)
    requires
        m.phase == Phase::Running,
        m.ops.len() > 0,
        m.ops[0] matches Op::Device(_),
        cleanup_ev == Event::DeviceOk || cleanup_ev == Event::DeviceFailed,
    ensures
        run_spec(m, seq![Event::DeviceFailed, cleanup_ev]).phase == (Phase::Done { failed: true }),
        trace_actions(m, seq![Event::DeviceFailed, cleanup_ev]) == seq![
            op_action(m.ops[0]),
            Action::SetDevice(off_spec()),
        ],
        action_spec(run_spec(m, seq![Event::DeviceFailed, cleanup_ev])) == (Action::Stop {
            failed: true,
        }),
{
    let evs = seq![Event::DeviceFailed, cleanup_ev];
    let m1 = step_spec(m, evs[0]);
    assert(m1.phase == (Phase::Cleanup { failed: true }));
    assert(evs.skip(1) =~= seq![cleanup_ev]);
    let m2 = step_spec(m1, cleanup_ev);
    assert(m2.phase == (Phase::Done { failed: true }));
    let rest = seq![cleanup_ev];
    assert(rest.skip(1).len() == 0);
    assert(run_spec(m2, rest.skip(1)) == m2);
    assert(run_spec(m1, rest) == m2);
    assert(run_spec(m, evs) == run_spec(m1, evs.skip(1)));
    assert(run_spec(m, evs) == m2);
    assert(action_spec(m1) == Action::SetDevice(off_spec()));
    assert(trace_actions(m2, rest.skip(1)) =~= Seq::<Action>::empty());
    assert(trace_actions(m1, rest) =~= seq![Action::SetDevice(off_spec())]);
    assert(trace_actions(m, evs) =~= seq![action_spec(m)] + trace_actions(m1, evs.skip(1)));
    assert(trace_actions(m, evs) =~= seq![op_action(m.ops[0]), Action::SetDevice(off_spec())]);
}

/// Law: against a session that never recovers, the loop attempts exactly the
/// remaining retry budget — each attempt through the same `Reconnect` action
/// — and then gives up cleanly, heading for the final neutral device write.
pub proof fn lemma_reconnect_exhaustion(m: M, left: u64, evs: Seq<Event>)
    requires
        m.phase == (Phase::Reconnecting { left }),
        1 <= left,
        evs.len() == left,
        forall|i: int| 0 <= i < evs.len() ==> #[trigger] evs[i] == Event::ReconnectFailed,
    ensures
        run_spec(m, evs).phase == (Phase::Cleanup { failed: false }),
        trace_actions(m, evs).len() == left,
        forall|i: int| 0 <= i < left ==> #[trigger] trace_actions(m, evs)[i] == Action::Reconnect,
    decreases left,
{
    let m1 = step_spec(m, evs[0]);
    if left == 1 {
        assert(m1.phase == (Phase::Cleanup { failed: false }));
        assert(evs.skip(1).len() == 0);
        assert(trace_actions(m1, evs.skip(1)) =~= Seq::<Action>::empty());
        assert(trace_actions(m, evs) =~= seq![Action::Reconnect]);
    } else {
        assert(m1.phase == (Phase::Reconnecting { left: (left - 1) as u64 }));
        assert(forall|i: int|
            0 <= i < evs.skip(1).len() ==> #[trigger] evs.skip(1)[i] == Event::ReconnectFailed);
        lemma_reconnect_exhaustion(m1, (left - 1) as u64, evs.skip(1));
        assert(trace_actions(m, evs) =~= seq![Action::Reconnect] + trace_actions(m1, evs.skip(1)));
        assert forall|i: int| 0 <= i < left implies #[trigger] trace_actions(m, evs)[i]
            == Action::Reconnect by {
            if i > 0 {
                assert(trace_actions(m, evs)[i] == trace_actions(m1, evs.skip(1))[i - 1]);
            }
        }
    }
}

/// Law: against a session that recovers on attempt `k` of the remaining
/// budget, the loop attempts exactly `k` times, returns to waiting with the
/// state it had, and retries no further.
pub proof fn lemma_reconnect_recovery(m: M, left: u64, k: u64, evs: Seq<Event>)
    requires
        m.phase == (Phase::Reconnecting { left }),
        1 <= k <= left,
        evs.len() == k,
        forall|i: int| 0 <= i < k - 1 ==> #[trigger] evs[i] == Event::ReconnectFailed,
        evs[k - 1] == Event::ReconnectOk,
    ensures
        run_spec(m, evs).phase == Phase::Idle,
        run_spec(m, evs).ops == m.ops,
        run_spec(m, evs).stop_requested == m.stop_requested,
        trace_actions(m, evs).len() == k,
        forall|i: int| 0 <= i < k ==> #[trigger] trace_actions(m, evs)[i] == Action::Reconnect,
        action_spec(run_spec(m, evs)) == Action::Wait,
    decreases k,
{
    let m1 = step_spec(m, evs[0]);
    if k == 1 {
        assert(evs[0] == Event::ReconnectOk);
        assert(m1.phase == Phase::Idle);
        assert(evs.skip(1).len() == 0);
        assert(trace_actions(m1, evs.skip(1)) =~= Seq::<Action>::empty());
        assert(trace_actions(m, evs) =~= seq![Action::Reconnect]);
    } else {
        assert(evs[0] == Event::ReconnectFailed);
        assert(left > 1);
        assert(m1.phase == (Phase::Reconnecting { left: (left - 1) as u64 }));
        assert forall|i: int| 0 <= i < k - 2 implies #[trigger] evs.skip(1)[i]
            == Event::ReconnectFailed by {
            assert(evs.skip(1)[i] == evs[i + 1]);
        }
        assert(evs.skip(1)[k - 2] == evs[k - 1]);
        lemma_reconnect_recovery(m1, (left - 1) as u64, (k - 1) as u64, evs.skip(1));
        assert(trace_actions(m, evs) =~= seq![Action::Reconnect] + trace_actions(m1, evs.skip(1)));
        assert forall|i: int| 0 <= i < k implies #[trigger] trace_actions(m, evs)[i]
            == Action::Reconnect by {
            if i > 0 {
                assert(trace_actions(m, evs)[i] == trace_actions(m1, evs.skip(1))[i - 1]);
            }
        }
    }
}

/// Law: a blink with a count of zero owes no operations at all, and handing
/// it to a waiting loop leaves the loop exactly as it was — a structural
/// no-op, not an error.
pub proof fn lemma_zero_count_is_noop(m: M, b: Blink)
    requires
        m.phase == Phase::Idle,
        b.count == 0,
    ensures
        plan_spec(Command::Blink { blink: b }).len() == 0,
        step_spec(m, Event::Command(Command::Blink { blink: b })) == m,
{
}

/// The device writes a sequence of operations performs, in order.
pub open spec fn device_colors(ops: Seq<Op>) -> Seq<Color>
    decreases ops.len(),
{
    if ops.len() == 0 {
        Seq::empty()
    } else {
        let rest = device_colors(ops.skip(1));
        match ops[0] {
            Op::Device(c) => seq![c] + rest,
            _ => rest,
        }
    }
}

/// The status publishes a sequence of operations performs, in order.
pub open spec fn status_colors(ops: Seq<Op>) -> Seq<Color>
    decreases ops.len(),
{
    if ops.len() == 0 {
        Seq::empty()
    } else {
        let rest = status_colors(ops.skip(1));
        match ops[0] {
            Op::Status(c) => seq![c] + rest,
            _ => rest,
        }
    }
}

/// The strict alternation `c, off, c, off, ...` of length `2 * k`.
pub open spec fn alternation(c: Color, k: nat) -> Seq<Color>
    decreases k,
{
    if k == 0 {
        Seq::empty()
    } else {
        alternation(c, (k - 1) as nat) + seq![c, off_spec()]
    }
}

proof fn lemma_device_colors_concat(a: Seq<Op>, b: Seq<Op>)
    ensures
        device_colors(a + b) == device_colors(a) + device_colors(b),
    decreases a.len(),
{
    if a.len() == 0 {
        assert(a + b =~= b);
        assert(device_colors(a + b) =~= device_colors(a) + device_colors(b));
    } else {
        assert((a + b).skip(1) =~= a.skip(1) + b);
        lemma_device_colors_concat(a.skip(1), b);
        assert((a + b)[0] == a[0]);
        assert(device_colors(a + b) =~= device_colors(a) + device_colors(b));
    }
}

proof fn lemma_status_colors_concat(a: Seq<Op>, b: Seq<Op>)
    ensures
        status_colors(a + b) == status_colors(a) + status_colors(b),
    decreases a.len(),
{
    if a.len() == 0 {
        assert(a + b =~= b);
        assert(status_colors(a + b) =~= status_colors(a) + status_colors(b));
    } else {
        assert((a + b).skip(1) =~= a.skip(1) + b);
        lemma_status_colors_concat(a.skip(1), b);
        assert((a + b)[0] == a[0]);
        assert(status_colors(a + b) =~= status_colors(a) + status_colors(b));
    }
}

proof fn lemma_cycle_projections(b: Blink)
    ensures
        cycle_spec(b).len() == 6,
        device_colors(cycle_spec(b)) == seq![b.color, off_spec()],
        status_colors(cycle_spec(b)) == seq![b.color, off_spec()],
{
    reveal_with_fuel(device_colors, 8);
    reveal_with_fuel(status_colors, 8);
    let s = cycle_spec(b);
    let s1 = seq![
        Op::Status(b.color),
        Op::Pause(b.interval_ms),
        Op::Device(off_spec()),
        Op::Status(off_spec()),
        Op::Pause(b.interval_ms),
    ];
    let s2 = seq![Op::Pause(b.interval_ms), Op::Device(off_spec()), Op::Status(off_spec()), Op::Pause(b.interval_ms)];
    let s3 = seq![Op::Device(off_spec()), Op::Status(off_spec()), Op::Pause(b.interval_ms)];
    let s4 = seq![Op::Status(off_spec()), Op::Pause(b.interval_ms)];
    let s5 = seq![Op::Pause(b.interval_ms)];
    assert(s.skip(1) =~= s1);
    assert(s1.skip(1) =~= s2);
    assert(s2.skip(1) =~= s3);
    assert(s3.skip(1) =~= s4);
    assert(s4.skip(1) =~= s5);
    assert(s5.skip(1).len() == 0);
    assert(device_colors(s) =~= seq![b.color, off_spec()]);
    assert(status_colors(s) =~= seq![b.color, off_spec()]);
}

proof fn lemma_blink_ops_projections(b: Blink, k: nat)
    ensures
        blink_ops_spec(b, k).len() == 6 * k,
        device_colors(blink_ops_spec(b, k)) == alternation(b.color, k),
        status_colors(blink_ops_spec(b, k)) == alternation(b.color, k),
    decreases k,
{
    if k == 0 {
        assert(device_colors(blink_ops_spec(b, k)) =~= alternation(b.color, k));
        assert(status_colors(blink_ops_spec(b, k)) =~= alternation(b.color, k));
    } else {
        lemma_blink_ops_projections(b, (k - 1) as nat);
        lemma_cycle_projections(b);
        lemma_device_colors_concat(blink_ops_spec(b, (k - 1) as nat), cycle_spec(b));
        lemma_status_colors_concat(blink_ops_spec(b, (k - 1) as nat), cycle_spec(b));
        assert(device_colors(blink_ops_spec(b, k)) =~= alternation(b.color, k));
        assert(status_colors(blink_ops_spec(b, k)) =~= alternation(b.color, k));
    }
}

/// Law: the plan of a blink command drives the device through the strict
/// alternation `color, off, color, off, ...` — `2 * count` writes for
/// `count` cycles — and mirrors exactly the same values, in the same order,
/// on the status topic. Together with `lemma_command_completion`, the device
/// sees this whole alternation even when any or all status publishes fail.
pub proof fn lemma_blink_alternation(b: Blink)
    ensures
        plan_spec(Command::Blink { blink: b }).len() == 6 * b.count,
        device_colors(plan_spec(Command::Blink { blink: b })) == alternation(b.color, b.count as nat),
        status_colors(plan_spec(Command::Blink { blink: b })) == alternation(b.color, b.count as nat),
        alternation(b.color, b.count as nat).len() == 2 * b.count,
{
    lemma_blink_ops_projections(b, b.count as nat);
    lemma_alternation_len(b.color, b.count as nat);
}

proof fn lemma_alternation_len(c: Color, k: nat)
    ensures
        alternation(c, k).len() == 2 * k,
    decreases k,
{
    if k > 0 {
        lemma_alternation_len(c, (k - 1) as nat);
    }
}

} // verus!
