//! One evaluation of the motion controller, as a state machine.
//!
//! A tick is begun from the handler, hands out one action at a time, and is
//! advanced by what became of that action. Sending and waiting are done by
//! whoever drives the tick; every decision is made here.

use crate::osc::pen_handle::{tick_commands, Command, HandlerView, PenState, Point};
use crate::single::Single;
use vstd::prelude::*;

verus! {

/// How far a tick has come.
#[derive(Debug, Clone, Copy, PartialEq, Eq, Structural)]
pub enum Stage {
    /// The pen was where it should be: there is nothing to do.
    Steady,
    /// A command is waiting to be sent.
    Sending,
    /// Every command was sent, and the move is in flight.
    Suspended,
    /// A send failed, and nobody has been told yet.
    Failed,
    /// The move is over: the pen is taken to be at the target.
    Completed,
    /// The tick was given up after a failed send.
    Aborted,
}

/// What became of the action that a tick handed out.
#[derive(Debug, Clone, Copy, PartialEq, Eq, Structural)]
pub enum Event {
    /// The command was sent.
    Sent,
    /// The command could not be sent.
    SendFailed,
    /// The wait for the move is over.
    Resumed,
    /// The failure was reported.
    Reported,
}

/// A move in flight: from where, to where, and how fast. The time it takes
/// is the distance between the two points divided by the speed.
#[derive(Debug, Clone, Copy, PartialEq)]
pub struct Travel {
    pub from: Point,
    pub to: Point,
    pub speed: Single,
}

/// What the driver of a tick has to do next.
#[derive(Debug, Clone, Copy, PartialEq)]
pub enum Action {
    /// Send this command, and answer with `Sent` or `SendFailed`.
    Send(Command),
    /// Wait for as long as this move takes, and answer with `Resumed`.
    Suspend(Travel),
    /// Report that this command could not be sent, and answer with
    /// `Reported`.
    Report(Command),
    /// Nothing: the tick is over.
    Rest,
}

/// What a tick holds, as plain values.
pub struct TickView {
    /// Where the pen was believed to be when the tick began.
    pub origin: PenState,
    /// Where the pen should be: the target when the tick began.
    pub goal: PenState,
    pub speed: Single,
    /// The commands of the tick, in the order in which they are sent.
    pub commands: Seq<Command>,
    /// How many of them were sent.
    pub sent: nat,
    pub stage: Stage,
}

impl TickView {
    /// The tick that a handler begins.
    pub open spec fn begin(h: HandlerView) -> TickView {
        if h.steady() {
            TickView {
                origin: h.current,
                goal: h.target,
                speed: h.speed,
                commands: Seq::empty(),
                sent: 0,
                stage: Stage::Steady,
            }
        } else {
            TickView {
                origin: h.current,
                goal: h.target,
                speed: h.speed,
                commands: tick_commands(h.current, h.target, h.speed),
                sent: 0,
                stage: Stage::Sending,
            }
        }
    }

    /// What holds of every tick that was begun from a handler and advanced
    /// from there.
    pub open spec fn wf(self) -> bool {
        &&& self.speed.spec_is_positive()
        &&& match self.stage {
            Stage::Steady => self.goal.same(self.origin) && self.commands.len() == 0 && self.sent
                == 0,
            Stage::Sending | Stage::Failed | Stage::Aborted => {
                &&& !self.goal.same(self.origin)
                &&& self.commands == tick_commands(self.origin, self.goal, self.speed)
                &&& self.sent < self.commands.len()
            },
            Stage::Suspended | Stage::Completed => {
                &&& !self.goal.same(self.origin)
                &&& self.commands == tick_commands(self.origin, self.goal, self.speed)
                &&& self.sent == self.commands.len()
            },
        }
    }

    /// The move that the tick waits for.
    pub open spec fn travel(self) -> Travel {
        Travel { from: self.origin.position(), to: self.goal.position(), speed: self.speed }
    }

    /// What is to be done next.
    pub open spec fn action(self) -> Action {
        match self.stage {
            Stage::Sending => Action::Send(self.commands[self.sent as int]),
            Stage::Suspended => Action::Suspend(self.travel()),
            Stage::Failed => Action::Report(self.commands[self.sent as int]),
            Stage::Steady | Stage::Completed | Stage::Aborted => Action::Rest,
        }
    }

    /// The tick after `event`. An event that does not answer the tick's
    /// action changes nothing.
    pub open spec fn advance(self, event: Event) -> TickView {
        match (self.stage, event) {
            (Stage::Sending, Event::Sent) => TickView {
                sent: self.sent + 1,
                stage: if self.sent + 1 == self.commands.len() {
                    Stage::Suspended
                } else {
                    Stage::Sending
                },
                ..self
            },
            (Stage::Sending, Event::SendFailed) => TickView { stage: Stage::Failed, ..self },
            (Stage::Suspended, Event::Resumed) => TickView { stage: Stage::Completed, ..self },
            (Stage::Failed, Event::Reported) => TickView { stage: Stage::Aborted, ..self },
            _ => self,
        }
    }

    /// The tick after a run of events.
    pub open spec fn run(self, events: Seq<Event>) -> TickView
        decreases events.len(),
    {
        if events.len() == 0 {
            self
        } else {
            self.advance(events[0]).run(events.drop_first())
        }
    }

    /// Whether the tick is over.
    pub open spec fn over(self) -> bool {
        self.stage is Steady || self.stage is Completed || self.stage is Aborted
    }

    /// The commands that were handed out for sending so far: those that were
    /// sent, and the one that failed.
    pub open spec fn attempted(self) -> Seq<Command> {
        match self.stage {
            Stage::Failed | Stage::Aborted => self.commands.take(self.sent as int + 1),
            _ => self.commands.take(self.sent as int),
        }
    }
}

impl HandlerView {
    /// The handler after a tick: the pen is taken to be at the tick's goal if
    /// the tick was completed, and nothing changes otherwise.
    pub open spec fn settle(self, tick: TickView) -> HandlerView {
        if tick.stage is Completed {
            self.with_current(tick.goal)
        } else {
            self
        }
    }
}

/// One evaluation of the motion controller.
#[derive(Debug)]
pub struct Tick {
    origin: PenState,
    goal: PenState,
    speed: Single,
    commands: Vec<Command>,
    sent: usize,
    stage: Stage,
}

impl View for Tick {
    type V = TickView;

    closed spec fn view(&self) -> TickView {
        TickView {
            origin: self.origin,
            goal: self.goal,
            speed: self.speed,
            commands: self.commands@,
            sent: self.sent as nat,
            stage: self.stage,
        }
    }
}

impl Tick {
    #[verifier::type_invariant]
    spec fn inv(self) -> bool {
        self@.wf()
    }

    /// The tick of a handler whose pen is where it should be.
    pub(crate) fn steady(origin: PenState, goal: PenState, speed: Single) -> (r: Tick)
        requires
            speed.spec_is_positive(),
            goal.same(origin),
        ensures
            r@ == (TickView {
                origin,
                goal,
                speed,
                commands: Seq::empty(),
                sent: 0,
                stage: Stage::Steady,
            }),
    {
        Tick { origin, goal, speed, commands: Vec::new(), sent: 0, stage: Stage::Steady }
    }

    /// The tick that takes the pen from `origin` to `goal` with `commands`.
    pub(crate) fn moving(origin: PenState, goal: PenState, speed: Single, commands: Vec<Command>) -> (r:
        Tick)
        requires
            speed.spec_is_positive(),
            !goal.same(origin),
            commands@ == tick_commands(origin, goal, speed),
        ensures
            r@ == (TickView {
                origin,
                goal,
                speed,
                commands: commands@,
                sent: 0,
                stage: Stage::Sending,
            }),
    {
        Tick { origin, goal, speed, commands, sent: 0, stage: Stage::Sending }
    }

    /// How far the tick has come.
    pub fn stage(&self) -> (r: Stage)
        ensures
            r == self@.stage,
    {
        self.stage
    }

    /// Where the pen was believed to be when the tick began.
    pub fn origin(&self) -> (r: PenState)
        ensures
            r == self@.origin,
    {
        self.origin
    }

    /// Where the tick takes the pen.
    pub fn goal(&self) -> (r: PenState)
        ensures
            r == self@.goal,
    {
        self.goal
    }

    /// How many commands were sent.
    pub fn sent(&self) -> (r: usize)
        ensures
            r == self@.sent,
    {
        self.sent
    }

    /// Whether the tick is over.
    pub fn is_over(&self) -> (r: bool)
        ensures
            r == self@.over(),
    {
        match self.stage {
            Stage::Steady | Stage::Completed | Stage::Aborted => true,
            _ => false,
        }
    }

    /// What is to be done next.
    pub fn action(&self) -> (r: Action)
        ensures
            self@.wf(),
            r == self@.action(),
    {
        proof {
            use_type_invariant(self);
        }
        match self.stage {
            Stage::Sending => Action::Send(self.commands[self.sent]),
            Stage::Suspended => Action::Suspend(
                Travel { from: self.origin.pos(), to: self.goal.pos(), speed: self.speed },
            ),
            Stage::Failed => Action::Report(self.commands[self.sent]),
            Stage::Steady | Stage::Completed | Stage::Aborted => Action::Rest,
        }
    }

    /// The tick after `event`. An event that does not answer the tick's
    /// action changes nothing.
    pub fn advance(self, event: Event) -> (r: Tick)
        ensures
            r@ == self@.advance(event),
            r@.wf(),
    {
        proof {
            use_type_invariant(&self);
            lemma_advance_keeps_wf(self@, event);
        }
        match (self.stage, event) {
            (Stage::Sending, Event::Sent) => {
                let sent: usize = self.sent + 1;
                let stage: Stage = if sent == self.commands.len() {
                    Stage::Suspended
                } else {
                    Stage::Sending
                };
                Tick { sent, stage, ..self }
            },
            (Stage::Sending, Event::SendFailed) => Tick { stage: Stage::Failed, ..self },
            (Stage::Suspended, Event::Resumed) => Tick { stage: Stage::Completed, ..self },
            (Stage::Failed, Event::Reported) => Tick { stage: Stage::Aborted, ..self },
            _ => self,
        }
    }
}

impl TickView {
    /// How often a failure was reported during a run of events.
    pub open spec fn reports(self, events: Seq<Event>) -> nat
        decreases events.len(),
    {
        if events.len() == 0 {
            0
        } else {
            let here: nat = if self.stage is Failed && events[0] is Reported {
                1
            } else {
                0
            };
            here + self.advance(events[0]).reports(events.drop_first())
        }
    }
}

impl HandlerView {
    /// The handler after one whole tick that met `events`.
    pub open spec fn tick(self, events: Seq<Event>) -> HandlerView {
        self.settle(TickView::begin(self).run(events))
    }

    /// The handler after one tick for each run of events in `rounds`.
    pub open spec fn ticks(self, rounds: Seq<Seq<Event>>) -> HandlerView
        decreases rounds.len(),
    {
        if rounds.len() == 0 {
            self
        } else {
            self.tick(rounds[0]).ticks(rounds.drop_first())
        }
    }

    /// The commands handed out for sending over one tick for each run of
    /// events in `rounds`.
    pub open spec fn ticks_attempted(self, rounds: Seq<Seq<Event>>) -> Seq<Command>
        decreases rounds.len(),
    {
        if rounds.len() == 0 {
            Seq::empty()
        } else {
            TickView::begin(self).run(rounds[0]).attempted() + self.tick(rounds[0]).ticks_attempted(
                rounds.drop_first(),
            )
        }
    }
}

/// As many `Sent` as asked for.
pub open spec fn all_sent(n: nat) -> Seq<Event> {
    Seq::new(n, |i: int| Event::Sent)
}

/// A tick stays well formed, whatever happens to it.
pub proof fn lemma_advance_keeps_wf(tick: TickView, event: Event)
    requires
        tick.wf(),
    ensures
        tick.advance(event).wf(),
{
}

/// A tick stays well formed over any run of events.
pub proof fn lemma_run_keeps_wf(tick: TickView, events: Seq<Event>)
    requires
        tick.wf(),
    ensures
        tick.run(events).wf(),
    decreases events.len(),
{
    if events.len() > 0 {
        lemma_advance_keeps_wf(tick, events[0]);
        lemma_run_keeps_wf(tick.advance(events[0]), events.drop_first());
    }
}

/// A tick that is over stays as it is.
pub proof fn lemma_over_is_final(tick: TickView, events: Seq<Event>)
    requires
        tick.over(),
    ensures
        tick.run(events) == tick,
        tick.reports(events) == 0,
    decreases events.len(),
{
    if events.len() > 0 {
        lemma_over_is_final(tick, events.drop_first());
    }
}

/// A speed that is not greater than zero never reaches a tick: what a
/// handler begins is well formed and stays so, and every move that is waited
/// for has the handler's speed.
pub proof fn tick_speed_is_positive(h: HandlerView, events: Seq<Event>)
    requires
        h.wf(),
    ensures
        TickView::begin(h).wf(),
        TickView::begin(h).run(events).wf(),
        TickView::begin(h).run(events).travel().speed == h.speed,
        TickView::begin(h).run(events).travel().speed.spec_is_positive(),
{
    lemma_run_keeps_wf(TickView::begin(h), events);
    lemma_run_keeps_plan(TickView::begin(h), events);
}

/// A tick keeps its origin, its goal, its speed and its commands, whatever
/// happens to it.
pub proof fn lemma_run_keeps_plan(tick: TickView, events: Seq<Event>)
    ensures
        tick.run(events).origin == tick.origin,
        tick.run(events).goal == tick.goal,
        tick.run(events).speed == tick.speed,
        tick.run(events).commands == tick.commands,
    decreases events.len(),
{
    if events.len() > 0 {
        lemma_run_keeps_plan(tick.advance(events[0]), events.drop_first());
    }
}

/// While the pen is where it should be, evaluating sends nothing and
/// changes nothing, however often it is done and whatever events reach the
/// ticks.
pub proof fn steady_ticks_change_nothing(h: HandlerView, rounds: Seq<Seq<Event>>)
    requires
        h.steady(),
    ensures
        TickView::begin(h).action() == Action::Rest,
        h.ticks(rounds) == h,
        h.ticks_attempted(rounds) == Seq::<Command>::empty(),
    decreases rounds.len(),
{
    if rounds.len() > 0 {
        lemma_over_is_final(TickView::begin(h), rounds[0]);
        assert(h.tick(rounds[0]) == h);
        steady_ticks_change_nothing(h, rounds.drop_first());
        assert(TickView::begin(h).attempted() =~= Seq::<Command>::empty());
    }
}

/// After a failed send the tick asks for one report and for nothing else:
/// no further command is handed out, the tick never completes, and the
/// handler that settles it is unchanged, whatever events follow.
pub proof fn failed_send_keeps_pen_in_place(h: HandlerView, tick: TickView, events: Seq<Event>)
    requires
        tick.wf(),
        tick.stage is Sending,
    ensures
        tick.advance(Event::SendFailed).action() == Action::Report(tick.commands[tick.sent as int]),
        tick.advance(Event::SendFailed).run(events).stage is Failed || tick.advance(
            Event::SendFailed,
        ).run(events).stage is Aborted,
        tick.advance(Event::SendFailed).run(events).attempted() == tick.commands.take(
            tick.sent as int + 1,
        ),
        h.settle(tick.advance(Event::SendFailed).run(events)) == h,
{
    lemma_failed_stays_failed(tick.advance(Event::SendFailed), events);
}

/// A tick that failed or was aborted stays so, and sends nothing more.
proof fn lemma_failed_stays_failed(tick: TickView, events: Seq<Event>)
    requires
        tick.stage is Failed || tick.stage is Aborted,
    ensures
        tick.run(events).stage is Failed || tick.run(events).stage is Aborted,
        tick.run(events).commands == tick.commands,
        tick.run(events).sent == tick.sent,
    decreases events.len(),
{
    if events.len() > 0 {
        lemma_failed_stays_failed(tick.advance(events[0]), events.drop_first());
    }
}

/// A failure is reported at most once in a tick, and exactly once in a tick
/// that ends aborted.
pub proof fn failure_is_reported_once(h: HandlerView, events: Seq<Event>)
    ensures
        TickView::begin(h).reports(events) <= 1,
        TickView::begin(h).run(events).stage is Aborted <==> TickView::begin(h).reports(events)
            == 1,
{
    lemma_reports(TickView::begin(h), events);
}

/// The reports of a run from any stage but `Aborted`.
proof fn lemma_reports(tick: TickView, events: Seq<Event>)
    requires
        !(tick.stage is Aborted),
    ensures
        tick.reports(events) <= 1,
        tick.run(events).stage is Aborted <==> tick.reports(events) == 1,
    decreases events.len(),
{
    if events.len() > 0 {
        let next = tick.advance(events[0]);
        if next.stage is Aborted {
            lemma_over_is_final(next, events.drop_first());
        } else {
            lemma_reports(next, events.drop_first());
        }
    }
}

/// A new target that arrives while a move is in flight does not change what
/// becomes of the move: the pen is taken to be at the goal that the tick
/// began with, and the next tick is the first to aim at the new target.
pub proof fn target_update_waits_for_next_tick(h: HandlerView, tick: TickView, state: PenState)
    requires
        tick.stage is Suspended,
    ensures
        h.with_target(state).settle(tick.advance(Event::Resumed)) == h.settle(
            tick.advance(Event::Resumed),
        ).with_target(state),
        h.with_target(state).settle(tick.advance(Event::Resumed)).current == tick.goal,
        TickView::begin(h.with_target(state).settle(tick.advance(Event::Resumed))).goal == state,
        TickView::begin(h.with_target(state).settle(tick.advance(Event::Resumed))).origin
            == tick.goal,
{
}

/// The run of a tick whose sends all succeed, up to the wait.
proof fn lemma_all_sent(tick: TickView, n: nat)
    requires
        tick.wf(),
        tick.stage is Sending,
        tick.sent + n == tick.commands.len(),
    ensures
        tick.run(all_sent(n)) == (TickView {
            sent: tick.commands.len(),
            stage: Stage::Suspended,
            ..tick
        }),
    decreases n,
{
    let next = tick.advance(Event::Sent);
    assert(all_sent(n).drop_first() =~= all_sent((n - 1) as nat));
    assert(tick.run(all_sent(n)) == next.run(all_sent((n - 1) as nat)));
    if n > 1 {
        lemma_all_sent(next, (n - 1) as nat);
    } else {
        assert(next.run(all_sent(0)) == next);
    }
}

/// The tick after `events` and one more event.
proof fn lemma_run_push(tick: TickView, events: Seq<Event>, event: Event)
    ensures
        tick.run(events.push(event)) == tick.run(events).advance(event),
    decreases events.len(),
{
    let longer = events.push(event);
    if events.len() == 0 {
        assert(longer.drop_first() =~= Seq::<Event>::empty());
        assert(tick.run(longer) == tick.advance(longer[0]).run(longer.drop_first()));
        assert(tick.advance(event).run(Seq::<Event>::empty()) == tick.advance(event));
    } else {
        assert(longer.drop_first() =~= events.drop_first().push(event));
        assert(tick.run(longer) == tick.advance(longer[0]).run(longer.drop_first()));
        lemma_run_push(tick.advance(events[0]), events.drop_first(), event);
    }
}

/// A tick whose sends all succeed hands out every command of the move, in
/// order, waits once, and leaves the pen at the target.
pub proof fn delivered_tick_reaches_target(h: HandlerView)
    requires
        h.wf(),
        !h.steady(),
    ensures
        TickView::begin(h).commands == tick_commands(h.current, h.target, h.speed),
        TickView::begin(h).run(all_sent(TickView::begin(h).commands.len())).action()
            == Action::Suspend(
            Travel { from: h.current.position(), to: h.target.position(), speed: h.speed },
        ),
        TickView::begin(h).run(
            all_sent(TickView::begin(h).commands.len()).push(Event::Resumed),
        ).stage is Completed,
        TickView::begin(h).run(
            all_sent(TickView::begin(h).commands.len()).push(Event::Resumed),
        ).attempted() == tick_commands(h.current, h.target, h.speed),
        h.tick(all_sent(TickView::begin(h).commands.len()).push(Event::Resumed))
            == h.with_current(h.target),
{
    let tick = TickView::begin(h);
    let n = tick.commands.len();
    lemma_all_sent(tick, n);
    lemma_run_push(tick, all_sent(n), Event::Resumed);
    assert(tick.commands.take(n as int) =~= tick.commands);
}

} // verus!
