//! The pen: where it is, where it should be, and the commands that take it
//! there.

use crate::error::ControlError;
use crate::osc::message::Argument;
use crate::osc::tick::{Stage, Tick, TickView};
use crate::single::Single;
use vstd::prelude::*;
use vstd::std_specs::cmp::PartialEqSpecImpl;

verus! {

/// A point of the canvas, relative to the top-left corner of the active
/// drawing area.
#[derive(Debug, Clone, Copy, PartialEq)]
pub struct Point {
    pub x: Single,
    pub y: Single,
}

/// The state of the pen: up or down, and where.
#[derive(Debug, Clone, Copy)]
pub enum PenState {
    Idle(Single, Single),
    Drawing(Single, Single),
}

impl PenState {
    /// The coordinates, whatever the variant.
    pub open spec fn position(self) -> Point {
        match self {
            PenState::Idle(x, y) => Point { x, y },
            PenState::Drawing(x, y) => Point { x, y },
        }
    }

    /// Whether the pen is down.
    pub open spec fn drawing(self) -> bool {
        self is Drawing
    }

    /// Same variant and numerically the same coordinates.
    pub open spec fn same(self, other: PenState) -> bool {
        &&& self.drawing() == other.drawing()
        &&& self.position().x.same(other.position().x)
        &&& self.position().y.same(other.position().y)
    }

    /// A pen that is up at `pos`.
    pub fn idle_from_pos(pos: Point) -> (r: PenState)
        ensures
            r == PenState::Idle(pos.x, pos.y),
    {
        PenState::Idle(pos.x, pos.y)
    }

    /// A pen that is down at `pos`.
    pub fn drawing_from_pos(pos: Point) -> (r: PenState)
        ensures
            r == PenState::Drawing(pos.x, pos.y),
    {
        PenState::Drawing(pos.x, pos.y)
    }

    /// Puts the pen down where it is. A pen that is down stays as it is.
    pub fn enable_drawing(&mut self)
        ensures
            *final(self) == PenState::Drawing(old(self).position().x, old(self).position().y),
    {
        if let PenState::Idle(x, y) = *self {
            *self = PenState::Drawing(x, y);
        }
    }

    /// The coordinates, whatever the variant.
    pub fn pos(&self) -> (r: Point)
        ensures
            r == self.position(),
    {
        match *self {
            PenState::Idle(x, y) => Point { x, y },
            PenState::Drawing(x, y) => Point { x, y },
        }
    }

    /// Whether the pen is down.
    pub fn is_drawing(&self) -> (r: bool)
        ensures
            r == self.drawing(),
    {
        match *self {
            PenState::Idle(_, _) => false,
            PenState::Drawing(_, _) => true,
        }
    }
}

impl Default for PenState {
    /// The pen is up at the origin.
    fn default() -> (r: PenState)
        ensures
            r == PenState::Idle(Single { bits: 0 }, Single { bits: 0 }),
    {
        PenState::Idle(Single::zero(), Single::zero())
    }
}

impl PartialEq for PenState {
    /// Same variant and numerically the same coordinates.
    fn eq(&self, other: &PenState) -> (r: bool) {
        let a: Point = self.pos();
        let b: Point = other.pos();
        self.is_drawing() == other.is_drawing() && a.x == b.x && a.y == b.y
    }
}

impl PartialEqSpecImpl for PenState {
    open spec fn obeys_eq_spec() -> bool {
        true
    }

    open spec fn eq_spec(&self, other: &PenState) -> bool {
        self.same(*other)
    }
}

/// The path of every movement command begins with this.
pub const MOV_PREFIX: &'static str = "/move_";

/// The path of the command that flags a move in flight.
pub const ON_MOVING: &'static str = "/on_moving";

/// The path of the command that says whether the pen is down.
pub const ON_DRAWING: &'static str = "/on_drawing";

/// Towards greater horizontal coordinates.
pub const RIGHT: &'static str = "right";

/// Towards lesser horizontal coordinates.
pub const LEFT: &'static str = "left";

/// Towards greater vertical coordinates.
pub const UP: &'static str = "up";

/// Towards lesser vertical coordinates.
pub const DOWN: &'static str = "down";

/// The speed of a handler that was given none: 1000 canvas units per
/// second, as a binary32 pattern.
pub const DEFAULT_SPEED_BITS: u32 = 0x447a_0000;

/// The four ways the remote pen can be told to move.
#[derive(Debug, Clone, Copy, PartialEq, Eq, Structural)]
pub enum Direction {
    Right,
    Left,
    Up,
    Down,
}

impl Direction {
    /// The word that names the direction in a command's path.
    pub open spec fn word(self) -> Seq<char> {
        match self {
            Direction::Right => RIGHT@,
            Direction::Left => LEFT@,
            Direction::Up => UP@,
            Direction::Down => DOWN@,
        }
    }

    /// The word that names the direction in a command's path.
    pub fn name(&self) -> (r: &'static str)
        ensures
            r@ == self.word(),
    {
        match self {
            Direction::Right => RIGHT,
            Direction::Left => LEFT,
            Direction::Up => UP,
            Direction::Down => DOWN,
        }
    }
}

/// How the target lies from the pen along one axis.
#[derive(Debug, Clone, Copy, PartialEq, Eq, Structural)]
pub enum Shift {
    /// The target's coordinate is the greater one.
    Positive,
    /// The target's coordinate is the lesser one.
    Negative,
    /// Neither is greater: the coordinates are equal, or one of them is NaN.
    Still,
}

impl Shift {
    /// The sign of `to - from`.
    pub open spec fn between(from: Single, to: Single) -> Shift {
        if to.spec_gt(from) {
            Shift::Positive
        } else if to.spec_lt(from) {
            Shift::Negative
        } else {
            Shift::Still
        }
    }

    /// The sign of `to - from`.
    pub fn of(from: Single, to: Single) -> (r: Shift)
        ensures
            r == Shift::between(from, to),
    {
        if to.gt(from) {
            Shift::Positive
        } else if to.lt(from) {
            Shift::Negative
        } else {
            Shift::Still
        }
    }
}

/// One command to the remote pen.
#[derive(Debug, Clone, Copy, PartialEq)]
pub enum Command {
    /// Move in a direction, at the given speed.
    Move(Direction, Single),
    /// Whether a move is in flight.
    Moving(bool),
    /// Whether the pen is down.
    Drawing(bool),
}

impl Command {
    /// The command's path, below the base address of the remote receiver.
    pub open spec fn path(self) -> Seq<char> {
        match self {
            Command::Move(d, _) => MOV_PREFIX@ + d.word(),
            Command::Moving(_) => ON_MOVING@,
            Command::Drawing(_) => ON_DRAWING@,
        }
    }

    /// What the command carries: the speed of a move, or the flag.
    pub open spec fn arguments(self) -> Seq<Argument> {
        match self {
            Command::Move(_, speed) => seq![Argument::Float(speed)],
            Command::Moving(on) => seq![Argument::Bool(on)],
            Command::Drawing(on) => seq![Argument::Bool(on)],
        }
    }

    /// What the command carries: the speed of a move, or the flag.
    pub fn args(&self) -> (r: Vec<Argument>)
        ensures
            r@ == self.arguments(),
    {
        let mut args: Vec<Argument> = Vec::new();
        match self {
            Command::Move(_, speed) => args.push(Argument::Float(*speed)),
            Command::Moving(on) => args.push(Argument::Bool(*on)),
            Command::Drawing(on) => args.push(Argument::Bool(*on)),
        }
        assert(args@ =~= self.arguments());
        args
    }

    /// The command's path, below the base address of the remote receiver.
    pub fn addr(&self) -> (r: String)
        ensures
            r@ == self.path(),
    {
        match self {
            Command::Move(d, _) => String::from_str(MOV_PREFIX).concat(d.name()),
            Command::Moving(_) => String::from_str(ON_MOVING),
            Command::Drawing(_) => String::from_str(ON_DRAWING),
        }
    }
}

/// The movement commands for one axis: none when the target is not to
/// either side.
pub open spec fn axis_commands(shift: Shift, forth: Direction, back: Direction, speed: Single) -> Seq<
    Command,
> {
    match shift {
        Shift::Positive => seq![Command::Move(forth, speed)],
        Shift::Negative => seq![Command::Move(back, speed)],
        Shift::Still => Seq::empty(),
    }
}

/// The movement commands that take the pen from `current` to `target`:
/// the horizontal one first, then the vertical one.
pub open spec fn movement_commands(current: PenState, target: PenState, speed: Single) -> Seq<
    Command,
> {
    axis_commands(
        Shift::between(current.position().x, target.position().x),
        Direction::Right,
        Direction::Left,
        speed,
    ) + axis_commands(
        Shift::between(current.position().y, target.position().y),
        Direction::Up,
        Direction::Down,
        speed,
    )
}

/// Everything one tick sends to bring the pen from `current` to `target`:
/// the movement commands, the flag that a move is in flight if there was
/// one, and whether the pen is down at the target.
pub open spec fn tick_commands(current: PenState, target: PenState, speed: Single) -> Seq<
    Command,
> {
    let moves = movement_commands(current, target, speed);
    let flag = if moves.len() > 0 {
        seq![Command::Moving(true)]
    } else {
        Seq::empty()
    };
    moves + flag + seq![Command::Drawing(target.drawing())]
}

/// What a handler holds, as plain values.
pub struct HandlerView {
    pub target: PenState,
    pub current: PenState,
    pub speed: Single,
}

/// The motion controller's state: where the pen is believed to be, where it
/// should be, and how fast it travels. The speed is always greater than zero.
#[derive(Debug, Clone, Copy)]
pub struct PenHandler {
    target_state: PenState,
    current_state: PenState,
    speed: Single,
}

impl View for PenHandler {
    type V = HandlerView;

    closed spec fn view(&self) -> HandlerView {
        HandlerView { target: self.target_state, current: self.current_state, speed: self.speed }
    }
}

impl HandlerView {
    /// A handler at rest at the origin with the default speed.
    pub open spec fn initial() -> HandlerView {
        HandlerView {
            target: PenState::Idle(Single { bits: 0 }, Single { bits: 0 }),
            current: PenState::Idle(Single { bits: 0 }, Single { bits: 0 }),
            speed: Single { bits: DEFAULT_SPEED_BITS },
        }
    }

    /// The speed is greater than zero.
    pub open spec fn wf(self) -> bool {
        self.speed.spec_is_positive()
    }

    /// Nothing is left to do: the pen is where it should be.
    pub open spec fn steady(self) -> bool {
        self.target.same(self.current)
    }

    /// The same handler with another target.
    pub open spec fn with_target(self, state: PenState) -> HandlerView {
        HandlerView { target: state, ..self }
    }

    /// The same handler with the pen believed to be at `state`.
    pub open spec fn with_current(self, state: PenState) -> HandlerView {
        HandlerView { current: state, ..self }
    }
}

impl Default for PenHandler {
    /// A handler at rest at the origin with the default speed.
    fn default() -> (r: PenHandler)
        ensures
            r@ == HandlerView::initial(),
    {
        PenHandler {
            target_state: PenState::default(),
            current_state: PenState::default(),
            speed: Single::from_bits(DEFAULT_SPEED_BITS),
        }
    }
}

impl PenHandler {
    #[verifier::type_invariant]
    spec fn speed_is_positive(self) -> bool {
        self.speed.spec_is_positive()
    }

    /// A handler at rest in `current_state`. A speed that is missing counts
    /// as zero, and a speed that is not greater than zero is refused.
    pub fn new(current_state: PenState, speed: Option<Single>) -> (r: Result<PenHandler, ControlError>)
        ensures
            match r {
                Ok(h) => speed is Some && h@ == (HandlerView {
                    target: current_state,
                    current: current_state,
                    speed: speed->0,
                }) && h@.wf(),
                Err(e) => e == ControlError::InvalidSpeed && !(speed is Some
                    && (speed->0).spec_is_positive()),
            },
    {
        let speed: Single = match speed {
            Some(s) => s,
            None => Single::zero(),
        };
        if speed.is_positive() {
            Ok(PenHandler { target_state: current_state, current_state, speed })
        } else {
            Err(ControlError::InvalidSpeed)
        }
    }

    /// Fills the one place that holds the process's handler with a handler at
    /// rest at the origin, whatever state is handed in: the pen always starts
    /// there. A place that is taken stays as it is.
    pub fn init(place: &mut Option<PenHandler>, current_state: Option<PenState>) -> (r: Result<
        (),
        ControlError,
    >)
        ensures
            *old(place) is Some ==> r == Err::<(), ControlError>(ControlError::AlreadyInitialized)
                && *final(place) == *old(place),
            *old(place) is None ==> r is Ok && *final(place) is Some && (*final(place))->0@
                == HandlerView::initial(),
    {
        if place.is_some() {
            Err(ControlError::AlreadyInitialized)
        } else {
            *place = Some(PenHandler::default());
            Ok(())
        }
    }

    /// The pen's believed state.
    pub fn current_state(&self) -> (r: PenState)
        ensures
            r == self@.current,
    {
        self.current_state
    }

    /// The pen's desired state.
    pub fn target_state(&self) -> (r: PenState)
        ensures
            r == self@.target,
    {
        self.target_state
    }

    /// The speed, in canvas units per second.
    pub fn speed(&self) -> (r: Single)
        ensures
            r == self@.speed,
            r.spec_is_positive(),
    {
        proof {
            use_type_invariant(self);
        }
        self.speed
    }

    /// This handler with a new target. The believed state and the speed are
    /// kept.
    pub fn new_handler(&self, target_state: PenState) -> (r: PenHandler)
        ensures
            r@ == self@.with_target(target_state),
    {
        let mut new_handler: PenHandler = *self;
        new_handler.set_target_state(target_state);
        new_handler
    }

    /// How the target lies from the pen, along the horizontal and along the
    /// vertical axis.
    pub fn calc_delta(&self) -> (r: (Shift, Shift))
        ensures
            r.0 == Shift::between(self@.current.position().x, self@.target.position().x),
            r.1 == Shift::between(self@.current.position().y, self@.target.position().y),
    {
        let target_position: Point = self.target_state.pos();
        let current_position: Point = self.current_state.pos();
        (
            Shift::of(current_position.x, target_position.x),
            Shift::of(current_position.y, target_position.y),
        )
    }

    /// The command that tells the remote pen whether it is down at the
    /// target.
    pub fn draw(&self) -> (r: Command)
        ensures
            r == Command::Drawing(self@.target.drawing()),
    {
        Command::Drawing(self.target_state.is_drawing())
    }

    /// The command that moves the remote pen towards `dst`. It carries the
    /// handler's speed.
    fn _mov_to(&self, dst: Direction) -> (r: Command)
        ensures
            r == Command::Move(dst, self@.speed),
    {
        Command::Move(dst, self.speed)
    }

    /// The commands of one tick, in the order in which they are sent: right
    /// or left, up or down, the flag that a move is in flight, and the state
    /// of the pen at the target.
    pub fn mov(&self) -> (r: Vec<Command>)
        ensures
            r@ == tick_commands(self@.current, self@.target, self@.speed),
    {
        let delta: (Shift, Shift) = self.calc_delta();
        let mut commands: Vec<Command> = Vec::new();
        match delta.0 {
            Shift::Positive => commands.push(self._mov_to(Direction::Right)),
            Shift::Negative => commands.push(self._mov_to(Direction::Left)),
            Shift::Still => {},
        }
        match delta.1 {
            Shift::Positive => commands.push(self._mov_to(Direction::Up)),
            Shift::Negative => commands.push(self._mov_to(Direction::Down)),
            Shift::Still => {},
        }
        if commands.len() > 0 {
            commands.push(Command::Moving(true));
        }
        commands.push(self.draw());
        assert(commands@ =~= tick_commands(self@.current, self@.target, self@.speed));
        commands
    }

    /// Begins one evaluation. Where the pen is where it should be, the tick
    /// is over at once; else it holds the commands of `mov`, and the first
    /// of them is waiting to be sent.
    pub fn eval(&self) -> (r: Tick)
        ensures
            self@.wf(),
            r@ == TickView::begin(self@),
            r@.wf(),
    {
        proof {
            use_type_invariant(self);
        }
        if self.target_state == self.current_state {
            Tick::steady(self.current_state, self.target_state, self.speed)
        } else {
            Tick::moving(self.current_state, self.target_state, self.speed, self.mov())
        }
    }

    /// The handler after `tick`: the pen is taken to be at the tick's goal if
    /// the tick was completed, and nothing changes otherwise. The target is
    /// kept in either case.
    pub fn settle(&self, tick: &Tick) -> (r: PenHandler)
        ensures
            r@ == self@.settle(tick@),
    {
        let mut newer_handler: PenHandler = *self;
        match tick.stage() {
            Stage::Completed => newer_handler.set_current_state(tick.goal()),
            _ => {},
        }
        newer_handler
    }

    /// Replaces the target.
    fn set_target_state(&mut self, state: PenState)
        ensures
            final(self)@ == old(self)@.with_target(state),
    {
        proof {
            use_type_invariant(&*self);
        }
        self.target_state = state;
    }

    /// Replaces the state that the pen is believed to be in.
    fn set_current_state(&mut self, state: PenState)
        ensures
            final(self)@ == old(self)@.with_current(state),
    {
        proof {
            use_type_invariant(&*self);
        }
        self.current_state = state;
    }
}

} // verus!
