use vrc_canvas::osc::pen_handle::{Command, Direction, PenHandler, PenState, Point};
use vrc_canvas::osc::tick::{Action, Event, Stage, Tick, Travel};
use vrc_canvas::single::Single;

fn single(value: f32) -> Single {
    Single::from_bits(value.to_bits())
}

fn idle(x: f32, y: f32) -> PenState {
    PenState::Idle(single(x), single(y))
}

fn drawing(x: f32, y: f32) -> PenState {
    PenState::Drawing(single(x), single(y))
}

fn handler(current: PenState, target: PenState, speed: f32) -> PenHandler {
    PenHandler::new(current, Some(single(speed))).unwrap().new_handler(target)
}

fn seconds(travel: &Travel) -> f32 {
    let dx = f32::from_bits(travel.to.x.bits) - f32::from_bits(travel.from.x.bits);
    let dy = f32::from_bits(travel.to.y.bits) - f32::from_bits(travel.from.y.bits);
    (dx.powi(2) + dy.powi(2)).sqrt() / f32::from_bits(travel.speed.bits)
}

/// What a driver saw of one tick.
struct Seen {
    sent: Vec<Command>,
    waits: Vec<Travel>,
    reports: Vec<Command>,
    tick: Tick,
}

/// Drives one tick to its end. The send with the number `fail_at`, counted
/// from zero, fails.
fn drive(handler: &PenHandler, fail_at: Option<usize>) -> Seen {
    let mut tick = handler.eval();
    let mut sent = Vec::new();
    let mut waits = Vec::new();
    let mut reports = Vec::new();
    loop {
        match tick.action() {
            Action::Send(command) => {
                let failed = fail_at == Some(sent.len());
                sent.push(command);
                tick = tick.advance(if failed { Event::SendFailed } else { Event::Sent });
            }
            Action::Suspend(travel) => {
                waits.push(travel);
                tick = tick.advance(Event::Resumed);
            }
            Action::Report(command) => {
                reports.push(command);
                tick = tick.advance(Event::Reported);
            }
            Action::Rest => break,
        }
    }
    Seen { sent, waits, reports, tick }
}

#[test]
fn a_steady_handler_sends_nothing_and_stays_as_it_is() {
    let mut handler = handler(drawing(2.0, 3.0), drawing(2.0, 3.0), 1000.0);
    for _ in 0..5 {
        let seen = drive(&handler, None);
        assert_eq!(seen.tick.stage(), Stage::Steady);
        assert!(seen.tick.is_over());
        assert!(seen.sent.is_empty());
        assert!(seen.waits.is_empty());
        assert!(seen.reports.is_empty());
        handler = handler.settle(&seen.tick);
        assert_eq!(handler.current_state(), drawing(2.0, 3.0));
        assert_eq!(handler.target_state(), drawing(2.0, 3.0));
        assert_eq!(handler.speed().to_bits(), 1000.0f32.to_bits());
    }
}

#[test]
fn a_steady_tick_ignores_every_event() {
    let handler = handler(idle(0.0, 0.0), idle(-0.0, 0.0), 1.0);
    let mut tick = handler.eval();
    for event in [Event::Sent, Event::SendFailed, Event::Resumed, Event::Reported] {
        tick = tick.advance(event);
        assert_eq!(tick.stage(), Stage::Steady);
        assert_eq!(tick.action(), Action::Rest);
        assert_eq!(tick.sent(), 0);
    }
}

#[test]
fn a_tick_to_the_right_and_down_sends_right_then_down() {
    let handler = handler(idle(0.0, 0.0), idle(3.0, -2.0), 1000.0);
    let seen = drive(&handler, None);
    assert_eq!(
        seen.sent,
        vec![
            Command::Move(Direction::Right, single(1000.0)),
            Command::Move(Direction::Down, single(1000.0)),
            Command::Moving(true),
            Command::Drawing(false),
        ]
    );
    assert!(!seen.sent.iter().any(|c| matches!(c, Command::Move(Direction::Up, _))));
    assert!(!seen.sent.iter().any(|c| matches!(c, Command::Move(Direction::Left, _))));
    assert_eq!(seen.tick.stage(), Stage::Completed);
    assert!(seen.reports.is_empty());
    let after = handler.settle(&seen.tick);
    assert_eq!(after.current_state(), idle(3.0, -2.0));
    assert_eq!(after.target_state(), idle(3.0, -2.0));
}

#[test]
fn a_tick_waits_once_for_the_way_divided_by_the_speed() {
    let handler = handler(idle(0.0, 0.0), idle(3.0, -4.0), 10.0);
    let seen = drive(&handler, None);
    assert_eq!(
        seen.waits,
        vec![Travel {
            from: Point { x: single(0.0), y: single(0.0) },
            to: Point { x: single(3.0), y: single(-4.0) },
            speed: single(10.0),
        }]
    );
    assert_eq!(seconds(&seen.waits[0]), 0.5);
}

#[test]
fn putting_the_pen_down_in_place_sends_the_pen_state_only() {
    let handler = handler(idle(5.0, 5.0), drawing(5.0, 5.0), 1000.0);
    let seen = drive(&handler, None);
    assert_eq!(seen.sent, vec![Command::Drawing(true)]);
    assert_eq!(seen.waits.len(), 1);
    assert_eq!(seconds(&seen.waits[0]), 0.0);
    assert_eq!(seen.tick.stage(), Stage::Completed);
    assert_eq!(handler.settle(&seen.tick).current_state(), drawing(5.0, 5.0));
}

#[test]
fn lifting_the_pen_in_place_sends_the_pen_state_only() {
    let handler = handler(drawing(5.0, 5.0), idle(5.0, 5.0), 1000.0);
    let seen = drive(&handler, None);
    assert_eq!(seen.sent, vec![Command::Drawing(false)]);
    assert_eq!(handler.settle(&seen.tick).current_state(), idle(5.0, 5.0));
}

#[test]
fn after_a_completed_tick_the_handler_is_steady() {
    let first = handler(idle(0.0, 0.0), drawing(1.0, 1.0), 7.0);
    let after = first.settle(&drive(&first, None).tick);
    let seen = drive(&after, None);
    assert_eq!(seen.tick.stage(), Stage::Steady);
    assert!(seen.sent.is_empty());
}

#[test]
fn a_failed_send_leaves_the_pen_where_it_was() {
    let before = handler(idle(0.0, 0.0), idle(3.0, -2.0), 1000.0);
    for fail_at in 0..4 {
        let seen = drive(&before, Some(fail_at));
        assert_eq!(seen.tick.stage(), Stage::Aborted);
        assert_eq!(seen.sent.len(), fail_at + 1);
        assert_eq!(seen.tick.sent(), fail_at);
        assert!(seen.waits.is_empty());
        let after = before.settle(&seen.tick);
        assert_eq!(after.current_state(), idle(0.0, 0.0));
        assert_eq!(after.target_state(), idle(3.0, -2.0));
    }
}

#[test]
fn a_failed_send_is_reported_once() {
    let before = handler(idle(0.0, 0.0), idle(3.0, -2.0), 1000.0);
    let seen = drive(&before, Some(1));
    assert_eq!(seen.reports, vec![Command::Move(Direction::Down, single(1000.0))]);
    let mut tick = seen.tick;
    for event in [Event::Reported, Event::Sent, Event::SendFailed, Event::Resumed] {
        tick = tick.advance(event);
        assert_eq!(tick.action(), Action::Rest);
        assert_eq!(tick.stage(), Stage::Aborted);
    }
}

#[test]
fn a_failed_tick_is_tried_again_from_the_same_place() {
    let before = handler(idle(0.0, 0.0), idle(3.0, -2.0), 1000.0);
    let failed = drive(&before, Some(0));
    let after = before.settle(&failed.tick);
    let again = drive(&after, None);
    assert_eq!(again.sent, before.mov());
    assert_eq!(after.settle(&again.tick).current_state(), idle(3.0, -2.0));
}

#[test]
fn a_tick_waits_for_the_answer_to_its_action() {
    let handler = handler(idle(0.0, 0.0), idle(1.0, 0.0), 1.0);
    let mut tick = handler.eval();
    assert_eq!(tick.stage(), Stage::Sending);
    tick = tick.advance(Event::Resumed);
    tick = tick.advance(Event::Reported);
    assert_eq!(tick.stage(), Stage::Sending);
    assert_eq!(tick.action(), Action::Send(Command::Move(Direction::Right, single(1.0))));
    for _ in 0..3 {
        tick = tick.advance(Event::Sent);
    }
    assert_eq!(tick.stage(), Stage::Suspended);
    tick = tick.advance(Event::Sent);
    tick = tick.advance(Event::SendFailed);
    tick = tick.advance(Event::Reported);
    assert_eq!(tick.stage(), Stage::Suspended);
    assert_eq!(tick.sent(), 3);
    tick = tick.advance(Event::Resumed);
    assert_eq!(tick.stage(), Stage::Completed);
    assert!(tick.is_over());
}

#[test]
fn a_tick_that_is_not_completed_settles_nothing() {
    let handler = handler(idle(0.0, 0.0), idle(1.0, 0.0), 1.0);
    let mut tick = handler.eval();
    assert_eq!(handler.settle(&tick).current_state(), idle(0.0, 0.0));
    for _ in 0..3 {
        tick = tick.advance(Event::Sent);
    }
    assert_eq!(tick.stage(), Stage::Suspended);
    assert_eq!(handler.settle(&tick).current_state(), idle(0.0, 0.0));
}

#[test]
fn a_new_target_during_the_wait_is_seen_by_the_next_tick() {
    let mut handler = handler(idle(0.0, 0.0), idle(3.0, -2.0), 1000.0);
    let mut tick = handler.eval();
    while let Action::Send(_) = tick.action() {
        tick = tick.advance(Event::Sent);
    }
    assert_eq!(tick.stage(), Stage::Suspended);

    handler = handler.new_handler(drawing(8.0, 8.0));
    assert_eq!(tick.goal(), idle(3.0, -2.0));
    assert_eq!(tick.origin(), idle(0.0, 0.0));

    tick = tick.advance(Event::Resumed);
    handler = handler.settle(&tick);
    assert_eq!(handler.current_state(), idle(3.0, -2.0));
    assert_eq!(handler.target_state(), drawing(8.0, 8.0));

    let next = drive(&handler, None);
    assert_eq!(
        next.sent,
        vec![
            Command::Move(Direction::Right, single(1000.0)),
            Command::Move(Direction::Up, single(1000.0)),
            Command::Moving(true),
            Command::Drawing(true),
        ]
    );
    assert_eq!(handler.settle(&next.tick).current_state(), drawing(8.0, 8.0));
}
